//! Names of the on-disk artifacts of one request: the scratch workspace
//! `"{chat}_{collection}"`, its items subfolder and the archive file.

use vstd::prelude::*;

verus! {

/// The decimal digit character for `d` (`0 <= d < 10`).
pub open spec fn digit_char(d: nat) -> char {
    if d == 0 { '0' }
    else if d == 1 { '1' }
    else if d == 2 { '2' }
    else if d == 3 { '3' }
    else if d == 4 { '4' }
    else if d == 5 { '5' }
    else if d == 6 { '6' }
    else if d == 7 { '7' }
    else if d == 8 { '8' }
    else { '9' }
}

/// The decimal representation of `n`, without leading zeros.
pub open spec fn decimal(n: nat) -> Seq<char>
    decreases n,
{
    if n < 10 {
        seq![digit_char(n)]
    } else {
        decimal(n / 10).push(digit_char(n % 10))
    }
}

/// The decimal representation of a signed integer, with a leading `-` when negative.
pub open spec fn signed_decimal(n: int) -> Seq<char> {
    if n < 0 {
        seq!['-'] + decimal((-n) as nat)
    } else {
        decimal(n as nat)
    }
}

/// The scratch workspace of the request made in `chat` for the collection `name`.
pub open spec fn workspace_of(chat: int, name: Seq<char>) -> Seq<char> {
    signed_decimal(chat) + seq!['_'] + name
}

/// The items subfolder that a workspace holds.
pub open spec fn items_dir_of(workspace: Seq<char>) -> Seq<char> {
    workspace + "/stickers"@
}

/// The archive file built from a workspace.
pub open spec fn archive_of(workspace: Seq<char>) -> Seq<char> {
    workspace + ".zip"@
}

/// Where an item whose download locator suggests `relative` is written.
pub open spec fn item_path_of(workspace: Seq<char>, relative: Seq<char>) -> Seq<char> {
    workspace + seq!['/'] + relative
}

pub open spec fn is_digit_char(c: char) -> bool {
    '0' <= c && c <= '9'
}

proof fn lemma_digit_char(d: nat)
    requires
        d < 10,
    ensures
        is_digit_char(digit_char(d)),
        forall|e: nat| e < 10 && digit_char(e) == digit_char(d) ==> e == d,
{
}

proof fn lemma_decimal_shape(n: nat)
    ensures
        decimal(n).len() >= 1,
        n >= 10 ==> decimal(n).len() >= 2,
        forall|i: int| 0 <= i < decimal(n).len() ==> is_digit_char(#[trigger] decimal(n)[i]),
    decreases n,
{
    lemma_digit_char(n % 10);
    if n >= 10 {
        lemma_decimal_shape(n / 10);
        let p = decimal(n / 10);
        assert forall|i: int| 0 <= i < decimal(n).len() implies is_digit_char(
            #[trigger] decimal(n)[i],
        ) by {
            if i < p.len() {
                assert(decimal(n)[i] == p[i]);
            }
        }
    }
}

proof fn lemma_decimal_injective(a: nat, b: nat)
    requires
        decimal(a) == decimal(b),
    ensures
        a == b,
    decreases a,
{
    lemma_decimal_shape(a);
    lemma_decimal_shape(b);
    lemma_digit_char(a % 10);
    lemma_digit_char(b % 10);
    let da = decimal(a);
    assert(da[da.len() - 1] == digit_char(a % 10));
    assert(decimal(b)[decimal(b).len() - 1] == digit_char(b % 10));
    if a >= 10 && b >= 10 {
        assert(decimal(a / 10) == da.drop_last());
        assert(decimal(b / 10) == decimal(b).drop_last());
        lemma_decimal_injective(a / 10, b / 10);
    }
}

proof fn lemma_signed_decimal(a: int, b: int)
    ensures
        signed_decimal(a).len() >= 1,
        forall|i: int|
            0 <= i < signed_decimal(a).len() ==> #[trigger] signed_decimal(a)[i] != '_',
        signed_decimal(a) == signed_decimal(b) ==> a == b,
{
    lemma_decimal_shape((if a < 0 { -a } else { a }) as nat);
    lemma_decimal_shape((if b < 0 { -b } else { b }) as nat);
    let sa = signed_decimal(a);
    let sb = signed_decimal(b);
    if a < 0 {
        assert forall|i: int| 0 <= i < sa.len() implies #[trigger] sa[i] != '_' by {
            if i > 0 {
                assert(sa[i] == decimal((-a) as nat)[i - 1]);
            }
        }
    }
    if sa == sb {
        if a < 0 && b < 0 {
            assert(decimal((-a) as nat) == sa.subrange(1, sa.len() as int));
            assert(decimal((-b) as nat) == sb.subrange(1, sb.len() as int));
            lemma_decimal_injective((-a) as nat, (-b) as nat);
        } else if a >= 0 && b >= 0 {
            lemma_decimal_injective(a as nat, b as nat);
        } else if a < 0 {
            assert(sa[0] == '-');
            assert(is_digit_char(sb[0]));
        } else {
            assert(sb[0] == '-');
            assert(is_digit_char(sa[0]));
        }
    }
}

/// Requests made from distinct (chat, collection name) pairs get distinct
/// scratch workspaces: the naming function is injective, so two requests
/// running at the same time never write to the same workspace path.
pub proof fn lemma_workspace_names_distinct(
    chat1: int,
    name1: Seq<char>,
    chat2: int,
    name2: Seq<char>,
)
    requires
        chat1 != chat2 || name1 != name2,
    ensures
        workspace_of(chat1, name1) != workspace_of(chat2, name2),
        archive_of(workspace_of(chat1, name1)) != archive_of(workspace_of(chat2, name2)),
{
    let s1 = signed_decimal(chat1);
    let s2 = signed_decimal(chat2);
    let w1 = workspace_of(chat1, name1);
    let w2 = workspace_of(chat2, name2);
    lemma_signed_decimal(chat1, chat2);
    lemma_signed_decimal(chat2, chat1);
    if w1 == w2 {
        if s1.len() < s2.len() {
            assert(w1[s1.len() as int] == '_');
            assert(w2[s1.len() as int] == s2[s1.len() as int]);
        } else if s2.len() < s1.len() {
            assert(w2[s2.len() as int] == '_');
            assert(w1[s2.len() as int] == s1[s2.len() as int]);
        } else {
            assert(s1 == w1.subrange(0, s1.len() as int));
            assert(s2 == w2.subrange(0, s2.len() as int));
            assert(name1 == w1.subrange(s1.len() as int + 1, w1.len() as int));
            assert(name2 == w2.subrange(s2.len() as int + 1, w2.len() as int));
        }
    }
    assert(w1 != w2);
    if archive_of(w1) == archive_of(w2) {
        reveal_strlit(".zip");
        assert(archive_of(w1).subrange(0, w1.len() as int) =~= w1);
        assert(archive_of(w2).subrange(0, w2.len() as int) =~= w2);
        assert(".zip"@.len() == 4);
        assert(archive_of(w1).len() == w1.len() + 4);
        assert(archive_of(w2).len() == w2.len() + 4);
        assert(w1 == w2);
    }
}

fn digit_str(d: u64) -> (r: &'static str)
    requires
        d < 10,
    ensures
        r@ == seq![digit_char(d as nat)],
{
    proof {
        reveal_strlit("0");
        reveal_strlit("1");
        reveal_strlit("2");
        reveal_strlit("3");
        reveal_strlit("4");
        reveal_strlit("5");
        reveal_strlit("6");
        reveal_strlit("7");
        reveal_strlit("8");
        reveal_strlit("9");
    }
    if d == 0 {
        "0"
    } else if d == 1 {
        "1"
    } else if d == 2 {
        "2"
    } else if d == 3 {
        "3"
    } else if d == 4 {
        "4"
    } else if d == 5 {
        "5"
    } else if d == 6 {
        "6"
    } else if d == 7 {
        "7"
    } else if d == 8 {
        "8"
    } else {
        "9"
    }
}

/// Appends the decimal representation of `n` to `s`.
pub fn push_decimal(s: &mut String, n: u64)
    ensures
        final(s)@ == old(s)@ + decimal(n as nat),
    decreases n,
{
    if n >= 10 {
        push_decimal(s, n / 10);
    }
    s.append(digit_str(n % 10));
    proof {
        assert(decimal(n as nat) == if n >= 10 { decimal((n / 10) as nat).push(digit_char((n % 10) as nat)) } else { seq![digit_char(n as nat)] });
    }
}

/// Appends the decimal representation of a signed `n` to `s`.
pub fn push_signed_decimal(s: &mut String, n: i64)
    ensures
        final(s)@ == old(s)@ + signed_decimal(n as int),
{
    if n < 0 {
        let m: u64 = (-(n + 1)) as u64 + 1;
        proof {
            reveal_strlit("-");
        }
        s.append("-");
        push_decimal(s, m);
    } else {
        push_decimal(s, n as u64);
    }
}

/// The scratch workspace `"{chat}_{name}"` of the request made in `chat` for
/// the collection `name`.
pub fn workspace_name(chat: i64, name: &str) -> (r: String)
    ensures
        r@ == workspace_of(chat as int, name@),
{
    let mut s = String::new();
    push_signed_decimal(&mut s, chat);
    proof {
        reveal_strlit("_");
    }
    s.append("_");
    s.append(name);
    s
}

/// The items subfolder of `workspace`.
pub fn items_dir(workspace: &str) -> (r: String)
    ensures
        r@ == items_dir_of(workspace@),
{
    let mut s = String::from_str(workspace);
    s.append("/stickers");
    s
}

/// The archive file built from `workspace`.
pub fn archive_path(workspace: &str) -> (r: String)
    ensures
        r@ == archive_of(workspace@),
{
    let mut s = String::from_str(workspace);
    s.append(".zip");
    s
}

/// Where inside `workspace` the item with the relative path `relative` is written.
pub fn item_path(workspace: &str, relative: &str) -> (r: String)
    ensures
        r@ == item_path_of(workspace@, relative@),
{
    let mut s = String::from_str(workspace);
    proof {
        reveal_strlit("/");
    }
    s.append("/");
    s.append(relative);
    s
}

} // verus!
