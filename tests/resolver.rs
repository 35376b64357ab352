use stickerpack::resolver::{parse_share_link, resolve, Input, ResolveError};

fn text(t: &str) -> Input {
    Input::Text(t.to_string())
}

#[test]
fn sticker_share_link_yields_its_name() {
    assert_eq!(resolve(&text("https://t.me/addstickers/CatPack")), Ok("CatPack".to_string()));
}

#[test]
fn emoji_share_link_yields_its_name() {
    assert_eq!(resolve(&text("https://t.me/addemoji/Smiles_2")), Ok("Smiles_2".to_string()));
}

#[test]
fn plain_text_is_an_incorrect_url() {
    assert_eq!(resolve(&text("hello world")), Err(ResolveError::IncorrectUrl));
}

#[test]
fn link_without_name_is_rejected() {
    assert_eq!(parse_share_link("https://t.me/addstickers/"), None);
    assert_eq!(parse_share_link("https://t.me/addemoji/"), None);
}

#[test]
fn link_with_white_space_in_name_is_rejected() {
    assert_eq!(parse_share_link("https://t.me/addstickers/Cat Pack"), None);
    assert_eq!(parse_share_link("https://t.me/addstickers/CatPack\n"), None);
    assert_eq!(parse_share_link("https://t.me/addstickers/Cat\u{3000}Pack"), None);
}

#[test]
fn link_must_span_the_whole_text() {
    assert_eq!(parse_share_link(" https://t.me/addstickers/CatPack"), None);
    assert_eq!(parse_share_link("see https://t.me/addstickers/CatPack"), None);
}

#[test]
fn other_hosts_and_markers_are_rejected() {
    assert_eq!(parse_share_link("http://t.me/addstickers/CatPack"), None);
    assert_eq!(parse_share_link("https://t.me/addstickerz/CatPack"), None);
    assert_eq!(parse_share_link("https://t.me/joinchat/CatPack"), None);
    assert_eq!(parse_share_link("https://txme/addstickers/CatPack"), None);
}

#[test]
fn name_keeps_every_character_of_its_segment() {
    assert_eq!(parse_share_link("https://t.me/addstickers/ab?c=d"), Some("ab?c=d".to_string()));
    assert_eq!(parse_share_link("https://t.me/addemoji/Кот"), Some("Кот".to_string()));
}

#[test]
fn name_spanning_two_segments_is_rejected() {
    assert_eq!(parse_share_link("https://t.me/addstickers/a/b"), None);
    assert_eq!(parse_share_link("https://t.me/addstickers/CatPack/"), None);
    assert_eq!(parse_share_link("https://t.me/addemoji//x"), None);
    assert_eq!(resolve(&text("https://t.me/addstickers/a/b?c=d")), Err(ResolveError::IncorrectUrl));
}

#[test]
fn forwarded_sticker_gives_its_set_name() {
    let input = Input::Sticker { set_name: Some("DogPack".to_string()) };
    assert_eq!(resolve(&input), Ok("DogPack".to_string()));
}

#[test]
fn forwarded_sticker_without_set_name() {
    let input = Input::Sticker { set_name: None };
    assert_eq!(resolve(&input), Err(ResolveError::SetNameMissing));
}

#[test]
fn forwarded_sticker_with_empty_set_name() {
    let input = Input::Sticker { set_name: Some(String::new()) };
    assert_eq!(resolve(&input), Err(ResolveError::SetNameMissing));
}

#[test]
fn message_without_text_or_sticker() {
    assert_eq!(resolve(&Input::Other), Err(ResolveError::NoReference));
}
