//! Planning the entries of the archive built from a workspace: each file and
//! each subdirectory met while walking the workspace becomes one entry named
//! by its path relative to the workspace, with `/` between components.

use vstd::prelude::*;

verus! {

/// One path met while walking a directory tree: its components relative to
/// the root of the walk (none for the root itself), and whether it is a
/// directory.
pub struct WalkEntry {
    pub parts: Vec<String>,
    pub is_dir: bool,
}

/// One entry of the archive: its name and whether it is a directory entry.
#[derive(Debug, PartialEq, Eq)]
pub struct ArchiveEntry {
    pub name: String,
    pub is_dir: bool,
}

impl View for WalkEntry {
    type V = (Seq<Seq<char>>, bool);

    open spec fn view(&self) -> (Seq<Seq<char>>, bool) {
        (self.parts@.map_values(|p: String| p@), self.is_dir)
    }
}

impl View for ArchiveEntry {
    type V = (Seq<char>, bool);

    open spec fn view(&self) -> (Seq<char>, bool) {
        (self.name@, self.is_dir)
    }
}

/// The components joined with `/`.
pub open spec fn join_path(parts: Seq<Seq<char>>) -> Seq<char>
    decreases parts.len(),
{
    if parts.len() == 0 {
        seq![]
    } else if parts.len() == 1 {
        parts[0]
    } else {
        join_path(parts.drop_last()) + seq!['/'] + parts.last()
    }
}

/// The archive entry for one walked path; the root of the walk has none.
pub open spec fn entry_for(w: (Seq<Seq<char>>, bool)) -> Option<(Seq<char>, bool)> {
    if w.0.len() == 0 {
        None
    } else {
        Some((join_path(w.0), w.1))
    }
}

/// The entries of the archive for a walk, in the order of the walk.
pub open spec fn planned(walk: Seq<(Seq<Seq<char>>, bool)>) -> Seq<(Seq<char>, bool)>
    decreases walk.len(),
{
    if walk.len() == 0 {
        seq![]
    } else {
        match entry_for(walk.last()) {
            Some(e) => planned(walk.drop_last()).push(e),
            None => planned(walk.drop_last()),
        }
    }
}

/// How many of the walked paths are files.
pub open spec fn walked_files(walk: Seq<(Seq<Seq<char>>, bool)>) -> nat
    decreases walk.len(),
{
    if walk.len() == 0 {
        0
    } else {
        walked_files(walk.drop_last()) + if walk.last().1 { 0nat } else { 1nat }
    }
}

/// How many of the entries are file entries.
pub open spec fn file_entries(entries: Seq<(Seq<char>, bool)>) -> nat
    decreases entries.len(),
{
    if entries.len() == 0 {
        0
    } else {
        file_entries(entries.drop_last()) + if entries.last().1 { 0nat } else { 1nat }
    }
}

pub open spec fn walk_view(walk: Seq<WalkEntry>) -> Seq<(Seq<Seq<char>>, bool)> {
    walk.map_values(|w: WalkEntry| w@)
}

pub open spec fn entries_view(entries: Seq<ArchiveEntry>) -> Seq<(Seq<char>, bool)> {
    entries.map_values(|e: ArchiveEntry| e@)
}

/// A walk of a workspace holding N files, each below the root, yields an
/// archive with exactly N file entries; every other entry is a directory
/// entry, one for each subdirectory walked.
pub proof fn lemma_archive_holds_each_file(walk: Seq<(Seq<Seq<char>>, bool)>)
    requires
        forall|i: int| 0 <= i < walk.len() && !(#[trigger] walk[i]).1 ==> walk[i].0.len() > 0,
    ensures
        file_entries(planned(walk)) == walked_files(walk),
    decreases walk.len(),
{
    if walk.len() > 0 {
        let rest = walk.drop_last();
        assert forall|i: int| 0 <= i < rest.len() && !(#[trigger] rest[i]).1 implies rest[i].0.len() > 0 by {
            assert(rest[i] == walk[i]);
        }
        lemma_archive_holds_each_file(rest);
        let last = walk.last();
        if let Some(e) = entry_for(last) {
            assert(planned(walk).drop_last() == planned(rest));
        }
    }
}

/// The archive mirrors the walked tree: every walked path but the root has an
/// entry of its own kind named by its relative path, and every entry is that
/// of a walked path. So the file entries are named exactly by the relative
/// paths of the walked files, and the directory entries exactly by those of
/// the walked subdirectories, empty ones included.
pub proof fn lemma_archive_mirrors_walk(walk: Seq<(Seq<Seq<char>>, bool)>)
    ensures
        forall|i: int|
            0 <= i < walk.len() && (#[trigger] walk[i]).0.len() > 0 ==> planned(walk).contains(
                (join_path(walk[i].0), walk[i].1),
            ),
        forall|k: int|
            0 <= k < planned(walk).len() ==> exists|i: int|
                0 <= i < walk.len() && walk[i].0.len() > 0 && #[trigger] planned(walk)[k] == (
                join_path(walk[i].0),
                walk[i].1,
            ),
    decreases walk.len(),
{
    if walk.len() > 0 {
        let rest = walk.drop_last();
        let last = walk.last();
        lemma_archive_mirrors_walk(rest);
        let pr = planned(rest);
        let pw = planned(walk);
        assert forall|i: int|
            0 <= i < walk.len() && (#[trigger] walk[i]).0.len() > 0 implies pw.contains(
            (join_path(walk[i].0), walk[i].1),
        ) by {
            if i < walk.len() - 1 {
                assert(rest[i] == walk[i]);
                let k = choose|k: int| 0 <= k < pr.len() && pr[k] == (join_path(rest[i].0), rest[i].1);
                assert(pw[k] == pr[k]);
            } else {
                assert(pw[pw.len() - 1] == (join_path(walk[i].0), walk[i].1));
            }
        }
        assert forall|k: int| 0 <= k < pw.len() implies exists|i: int|
            0 <= i < walk.len() && walk[i].0.len() > 0 && #[trigger] pw[k] == (
            join_path(walk[i].0),
            walk[i].1,
        ) by {
            if k < pr.len() {
                assert(pw[k] == pr[k]);
                let i = choose|i: int|
                    0 <= i < rest.len() && rest[i].0.len() > 0 && #[trigger] pr[k] == (
                    join_path(rest[i].0),
                    rest[i].1,
                );
                assert(rest[i] == walk[i]);
            } else {
                assert(walk[walk.len() - 1] == last);
            }
        }
    }
}

/// The components of `parts` joined with `/`.
pub fn join_parts(parts: &Vec<String>) -> (r: String)
    ensures
        r@ == join_path(parts@.map_values(|p: String| p@)),
{
    let ghost v = parts@.map_values(|p: String| p@);
    let mut s = String::new();
    let mut i: usize = 0;
    while i < parts.len()
        invariant
            i <= parts.len(),
            v == parts@.map_values(|p: String| p@),
            s@ == join_path(v.subrange(0, i as int)),
        decreases parts.len() - i,
    {
        proof {
            reveal_strlit("/");
            assert(v.subrange(0, i + 1).drop_last() =~= v.subrange(0, i as int));
        }
        if i > 0 {
            s.append("/");
        }
        s.append(parts[i].as_str());
        i = i + 1;
        proof {
            if i == 1 {
                assert(s@ =~= join_path(v.subrange(0, i as int)));
            }
        }
    }
    assert(v.subrange(0, parts.len() as int) =~= v);
    s
}

/// The archive entries for a walk of a workspace, in the order of the walk:
/// a file entry for each file and a directory entry for each directory but
/// the root, each named by its path relative to the root.
pub fn plan_archive(walk: &Vec<WalkEntry>) -> (r: Vec<ArchiveEntry>)
    ensures
        entries_view(r@) == planned(walk_view(walk@)),
{
    let ghost wv = walk_view(walk@);
    let mut out: Vec<ArchiveEntry> = Vec::new();
    let mut i: usize = 0;
    while i < walk.len()
        invariant
            i <= walk.len(),
            wv == walk_view(walk@),
            entries_view(out@) == planned(wv.subrange(0, i as int)),
        decreases walk.len() - i,
    {
        let w = &walk[i];
        proof {
            assert(wv.subrange(0, i + 1).drop_last() =~= wv.subrange(0, i as int));
            assert(wv.subrange(0, i + 1).last() == w@);
        }
        if w.parts.len() > 0 {
            let name = join_parts(&w.parts);
            let ghost before = out@;
            out.push(ArchiveEntry { name, is_dir: w.is_dir });
            proof {
                assert(entries_view(out@) =~= entries_view(before).push((name@, w.is_dir)));
            }
        }
        i = i + 1;
    }
    assert(wv.subrange(0, walk.len() as int) =~= wv);
    out
}

/// A path component as a walk yields it: non-empty and free of `/`.
pub open spec fn is_component(c: Seq<char>) -> bool {
    c.len() > 0 && forall|i: int| 0 <= i < c.len() ==> #[trigger] c[i] != '/'
}

pub open spec fn all_components(parts: Seq<Seq<char>>) -> bool {
    forall|i: int| 0 <= i < parts.len() ==> is_component(#[trigger] parts[i])
}

proof fn lemma_join_shape(parts: Seq<Seq<char>>)
    requires
        all_components(parts),
    ensures
        parts.len() > 0 ==> join_path(parts).len() >= parts.last().len(),
        parts.len() > 0 ==> join_path(parts).subrange(
            join_path(parts).len() - parts.last().len(),
            join_path(parts).len() as int,
        ) == parts.last(),
        parts.len() > 1 ==> join_path(parts).len() > parts.last().len(),
        parts.len() > 1 ==> join_path(parts)[join_path(parts).len() - parts.last().len() - 1]
            == '/',
        parts.len() == 1 ==> forall|i: int|
            0 <= i < join_path(parts).len() ==> #[trigger] join_path(parts)[i] != '/',
        parts.len() > 1 ==> join_path(parts.drop_last()) == join_path(parts).subrange(
            0,
            join_path(parts).len() - parts.last().len() - 1,
        ),
{
    if parts.len() == 1 {
        assert(is_component(parts[0]));
        assert(join_path(parts).subrange(0, join_path(parts).len() as int) =~= parts[0]);
    } else if parts.len() > 1 {
        let j = join_path(parts);
        let p = join_path(parts.drop_last());
        let l = parts.last();
        assert(j == p + seq!['/'] + l);
        assert(j.subrange(j.len() - l.len(), j.len() as int) =~= l);
        assert(j.subrange(0, j.len() - l.len() - 1) =~= p);
    }
}

/// Distinct relative paths, each made of components as a walk yields them,
/// are packed under distinct entry names: extracting the archive gives back
/// each walked path as it was.
pub proof fn lemma_entry_names_distinct(a: Seq<Seq<char>>, b: Seq<Seq<char>>)
    requires
        a.len() > 0,
        b.len() > 0,
        all_components(a),
        all_components(b),
        a != b,
    ensures
        join_path(a) != join_path(b),
    decreases a.len() + b.len(),
{
    lemma_join_shape(a);
    lemma_join_shape(b);
    let ja = join_path(a);
    let jb = join_path(b);
    if ja == jb {
        let la = a.last().len();
        let lb = b.last().len();
        assert(is_component(a.last()));
        assert(is_component(b.last()));
        if la < lb {
            // the `/` before the last component of `a` lies inside the last component of `b`
            if a.len() > 1 {
                assert(jb.subrange(jb.len() - lb, jb.len() as int)[lb - la - 1] == jb[jb.len() - la - 1]);
            } else {
                assert(jb.subrange(jb.len() - lb, jb.len() as int)[lb - la] == jb[jb.len() - la]);
            }
        } else if lb < la {
            if b.len() > 1 {
                assert(ja.subrange(ja.len() - la, ja.len() as int)[la - lb - 1] == ja[ja.len() - lb - 1]);
            } else {
                assert(ja.subrange(ja.len() - la, ja.len() as int)[la - lb] == ja[ja.len() - lb]);
            }
        } else {
            assert(a.last() == b.last());
            if a.len() > 1 && b.len() > 1 {
                assert(all_components(a.drop_last()));
                assert(all_components(b.drop_last()));
                assert(a.drop_last() != b.drop_last()) by {
                    if a.drop_last() == b.drop_last() {
                        assert(a =~= a.drop_last().push(a.last()));
                        assert(b =~= b.drop_last().push(b.last()));
                    }
                }
                lemma_entry_names_distinct(a.drop_last(), b.drop_last());
            } else if a.len() > 1 {
                assert(ja[ja.len() - la - 1] == '/');
                assert(ja.len() > la);
            } else if b.len() > 1 {
                assert(jb[jb.len() - lb - 1] == '/');
                assert(jb.len() > lb);
            } else {
                assert(a =~= seq![a.last()]);
                assert(b =~= seq![b.last()]);
            }
        }
    }
}

} // verus!
