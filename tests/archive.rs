use stickerpack::archive::{join_parts, plan_archive, ArchiveEntry, WalkEntry};

fn walked(parts: &[&str], is_dir: bool) -> WalkEntry {
    WalkEntry { parts: parts.iter().map(|p| p.to_string()).collect(), is_dir }
}

fn entry(name: &str, is_dir: bool) -> ArchiveEntry {
    ArchiveEntry { name: name.to_string(), is_dir }
}

#[test]
fn joins_components_with_slashes() {
    assert_eq!(join_parts(&vec![]), "");
    assert_eq!(join_parts(&vec!["a".to_string()]), "a");
    assert_eq!(join_parts(&vec!["a".to_string(), "b".to_string(), "c.webp".to_string()]), "a/b/c.webp");
}

#[test]
fn three_items_give_three_file_entries() {
    let walk = vec![
        walked(&[], true),
        walked(&["stickers"], true),
        walked(&["stickers", "file_0.webp"], false),
        walked(&["stickers", "file_1.webp"], false),
        walked(&["stickers", "file_2.webp"], false),
    ];
    let plan = plan_archive(&walk);
    assert_eq!(
        plan,
        vec![
            entry("stickers", true),
            entry("stickers/file_0.webp", false),
            entry("stickers/file_1.webp", false),
            entry("stickers/file_2.webp", false),
        ]
    );
    assert_eq!(plan.iter().filter(|e| !e.is_dir).count(), 3);
}

#[test]
fn empty_subdirectories_get_entries() {
    let walk = vec![walked(&[], true), walked(&["stickers"], true), walked(&["stickers", "empty"], true)];
    assert_eq!(plan_archive(&walk), vec![entry("stickers", true), entry("stickers/empty", true)]);
}

#[test]
fn empty_walk_plans_nothing() {
    assert_eq!(plan_archive(&vec![]), vec![]);
}
