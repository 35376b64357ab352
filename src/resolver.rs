//! Reference resolution: from a user's message to the name of a collection.
//!
//! A share link has the form `https://t.me/addemoji/<name>` or
//! `https://t.me/addstickers/<name>`, where `<name>` is one path segment: a
//! non-empty run of characters that are neither white space nor `/`,
//! reaching the end of the text.

use vstd::prelude::*;

verus! {

/// Unicode's White_Space property.
pub open spec fn is_white_space(c: char) -> bool {
    let u = c as u32;
    (0x9 <= u && u <= 0xd) || u == 0x20 || u == 0x85 || u == 0xa0 || u == 0x1680 || (0x2000 <= u
        && u <= 0x200a) || u == 0x2028 || u == 0x2029 || u == 0x202f || u == 0x205f || u == 0x3000
}

/// A name that may close a share link: one non-empty path segment, free of
/// white space.
pub open spec fn is_link_name(name: Seq<char>) -> bool {
    name.len() > 0 && forall|i: int|
        0 <= i < name.len() ==> !is_white_space(#[trigger] name[i]) && name[i] != '/'
}

/// The part of a share link that comes before the name; `emoji` picks the
/// emoji-pack form, otherwise the sticker-pack form.
pub open spec fn link_head(emoji: bool) -> Seq<char> {
    if emoji {
        "https://t.me/addemoji/"@
    } else {
        "https://t.me/addstickers/"@
    }
}

/// The share link of the given kind for `name`.
pub open spec fn share_link(emoji: bool, name: Seq<char>) -> Seq<char> {
    link_head(emoji) + name
}

pub open spec fn has_prefix(t: Seq<char>, p: Seq<char>) -> bool {
    p.len() <= t.len() && t.subrange(0, p.len() as int) == p
}

/// The name that a text carries as a share link, if it is one.
pub open spec fn share_link_name(t: Seq<char>) -> Option<Seq<char>> {
    if has_prefix(t, link_head(true)) && is_link_name(t.subrange(link_head(true).len() as int, t.len() as int)) {
        Some(t.subrange(link_head(true).len() as int, t.len() as int))
    } else if has_prefix(t, link_head(false)) && is_link_name(t.subrange(link_head(false).len() as int, t.len() as int)) {
        Some(t.subrange(link_head(false).len() as int, t.len() as int))
    } else {
        None
    }
}

/// Why no collection name could be had from a message.
#[derive(Clone, Copy, Debug, PartialEq, Eq, Structural)]
pub enum ResolveError {
    /// The text is not a share link of an emoji or sticker pack.
    IncorrectUrl,
    /// The forwarded sticker belongs to no named set (or to one with an empty name).
    SetNameMissing,
    /// The message holds neither text nor a sticker: nothing to resolve.
    NoReference,
}

/// What an inbound message offers to resolve a collection from.
#[derive(Debug)]
pub enum Input {
    Text(String),
    Sticker { set_name: Option<String> },
    Other,
}

/// What resolution yields for an input.
pub open spec fn resolved(input: &Input) -> Result<Seq<char>, ResolveError> {
    match input {
        Input::Text(t) => match share_link_name(t@) {
            Some(n) => Ok(n),
            None => Err(ResolveError::IncorrectUrl),
        },
        Input::Sticker { set_name } => match set_name {
            Some(n) => if n@.len() > 0 {
                Ok(n@)
            } else {
                Err(ResolveError::SetNameMissing)
            },
            None => Err(ResolveError::SetNameMissing),
        },
        Input::Other => Err(ResolveError::NoReference),
    }
}

pub open spec fn result_view(r: Result<String, ResolveError>) -> Result<Seq<char>, ResolveError> {
    match r {
        Ok(s) => Ok(s@),
        Err(e) => Err(e),
    }
}

/// Every well-formed share link resolves to exactly the segment after its
/// type marker.
pub proof fn lemma_share_link_resolves(emoji: bool, name: Seq<char>)
    requires
        is_link_name(name),
    ensures
        share_link_name(share_link(emoji, name)) == Some(name),
{
    reveal_strlit("https://t.me/addemoji/");
    reveal_strlit("https://t.me/addstickers/");
    let t = share_link(emoji, name);
    let e = link_head(true);
    let s = link_head(false);
    assert(t.subrange(link_head(emoji).len() as int, t.len() as int) =~= name);
    assert(t.subrange(0, link_head(emoji).len() as int) =~= link_head(emoji));
    if !emoji {
        // the sticker form does not start with the emoji head
        assert(t[16] == 's');
        assert(e[16] == 'e');
        if has_prefix(t, e) {
            assert(t.subrange(0, e.len() as int)[16] == t[16]);
        }
    }
}

/// Text that is no well-formed share link resolves to no name.
pub proof fn lemma_malformed_text_unresolved(t: Seq<char>)
    requires
        forall|emoji: bool, name: Seq<char>| is_link_name(name) ==> t != share_link(emoji, name),
    ensures
        share_link_name(t) is None,
{
    if share_link_name(t) is Some {
        let emoji = has_prefix(t, link_head(true)) && is_link_name(
            t.subrange(link_head(true).len() as int, t.len() as int),
        );
        let h = link_head(emoji);
        let name = t.subrange(h.len() as int, t.len() as int);
        assert(share_link(emoji, name) =~= t);
    }
}

fn is_white_space_char(c: char) -> (r: bool)
    ensures
        r == is_white_space(c),
{
    let u = c as u32;
    (0x9 <= u && u <= 0xd) || u == 0x20 || u == 0x85 || u == 0xa0 || u == 0x1680 || (0x2000 <= u
        && u <= 0x200a) || u == 0x2028 || u == 0x2029 || u == 0x202f || u == 0x205f || u == 0x3000
}

/// Whether the characters of `t` from `start` on are a name that may close a
/// share link.
fn is_link_name_from(t: &str, start: usize) -> (r: bool)
    requires
        start <= t@.len(),
    ensures
        r == is_link_name(t@.subrange(start as int, t@.len() as int)),
{
    let n = t.unicode_len();
    if start >= n {
        return false;
    }
    let mut i: usize = start;
    while i < n
        invariant
            start <= i <= n,
            n == t@.len(),
            forall|j: int| start <= j < i ==> !is_white_space(#[trigger] t@[j]) && t@[j] != '/',
        decreases n - i,
    {
        let c = t.get_char(i);
        if is_white_space_char(c) || c == '/' {
            assert(t@.subrange(start as int, t@.len() as int)[i - start] == t@[i as int]);
            return false;
        }
        i = i + 1;
    }
    assert forall|j: int| 0 <= j < t@.subrange(start as int, t@.len() as int).len() implies !is_white_space(
        #[trigger] t@.subrange(start as int, t@.len() as int)[j],
    ) && t@.subrange(start as int, t@.len() as int)[j] != '/' by {
        assert(t@.subrange(start as int, t@.len() as int)[j] == t@[start + j]);
    }
    true
}

/// Whether `t` starts with `p`.
fn starts_with(t: &str, p: &str) -> (r: bool)
    ensures
        r == has_prefix(t@, p@),
{
    let n = t.unicode_len();
    let m = p.unicode_len();
    if m > n {
        return false;
    }
    let mut i: usize = 0;
    while i < m
        invariant
            i <= m <= n,
            n == t@.len(),
            m == p@.len(),
            forall|j: int| 0 <= j < i ==> t@[j] == p@[j],
        decreases m - i,
    {
        if t.get_char(i) != p.get_char(i) {
            assert(t@.subrange(0, m as int)[i as int] == t@[i as int]);
            return false;
        }
        i = i + 1;
    }
    assert(t@.subrange(0, m as int) =~= p@);
    true
}

/// The collection name that `text` carries as a share link, or `None` where
/// it is no share link.
pub fn parse_share_link(text: &str) -> (r: Option<String>)
    ensures
        match r {
            Some(n) => share_link_name(text@) == Some(n@),
            None => share_link_name(text@) is None,
        },
{
    let emoji = "https://t.me/addemoji/";
    let sticker = "https://t.me/addstickers/";
    let n = text.unicode_len();
    if starts_with(text, emoji) {
        let k = emoji.unicode_len();
        if is_link_name_from(text, k) {
            return Some(String::from_str(text.substring_char(k, n)));
        }
    }
    if starts_with(text, sticker) {
        let k = sticker.unicode_len();
        if is_link_name_from(text, k) {
            return Some(String::from_str(text.substring_char(k, n)));
        }
    }
    None
}

/// The collection name that a message refers to: the name closing a share
/// link, or the set name of a forwarded sticker.
pub fn resolve(input: &Input) -> (r: Result<String, ResolveError>)
    ensures
        result_view(r) == resolved(input),
{
    match input {
        Input::Text(t) => match parse_share_link(t.as_str()) {
            Some(n) => Ok(n),
            None => Err(ResolveError::IncorrectUrl),
        },
        Input::Sticker { set_name } => match set_name {
            Some(n) => if n.as_str().unicode_len() > 0 {
                Ok(n.clone())
            } else {
                Err(ResolveError::SetNameMissing)
            },
            None => Err(ResolveError::SetNameMissing),
        },
        Input::Other => Err(ResolveError::NoReference),
    }
}

} // verus!
