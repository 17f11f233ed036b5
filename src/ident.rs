//! New ticket ids: a prefix drawn from the store's location, then a suffix from
//! the clock and a random value.
use vstd::prelude::*;
use crate::clock::read_clock;
use crate::scan::{pieces, split_on, sub_chars, views};
use crate::text::{chars_of, string_from_chars};
use crate::ticket::TicketError;

verus! {

/// A path component that names the directory it stands in.
pub open spec fn is_here(p: Seq<char>) -> bool {
    p == seq!['.']
}

/// A path component that names the parent directory.
pub open spec fn is_up(p: Seq<char>) -> bool {
    p == seq!['.', '.']
}

/// The pieces of `ps` that are neither empty nor `.`, in order: the components of
/// a path.
pub open spec fn filled(ps: Seq<Seq<char>>) -> Seq<Seq<char>>
    decreases ps.len(),
{
    if ps.len() == 0 {
        ps
    } else if ps.last().len() == 0 || is_here(ps.last()) {
        filled(ps.drop_last())
    } else {
        filled(ps.drop_last()).push(ps.last())
    }
}

pub open spec fn unknown_name() -> Seq<char> {
    seq!['u', 'n', 'k']
}

/// The name of the directory that holds the directory at `path`, as the last
/// component of its parent path; `unk` where the path has no parent or the parent
/// ends in `..`.
pub open spec fn parent_name(path: Seq<char>) -> Seq<char> {
    let c = filled(pieces(path, seq!['/']));
    if c.len() >= 2 && !is_up(c[c.len() - 2]) {
        c[c.len() - 2]
    } else {
        unknown_name()
    }
}

/// The first character of each non-empty piece, in order.
pub open spec fn initials(ps: Seq<Seq<char>>) -> Seq<char>
    decreases ps.len(),
{
    if ps.len() == 0 {
        Seq::empty()
    } else if ps.last().len() == 0 {
        initials(ps.drop_last())
    } else {
        initials(ps.drop_last()).push(ps.last()[0])
    }
}

/// The id prefix for a store under the directory `name`: the initials of its
/// `-`/`_`-separated parts, else its first three characters.
pub open spec fn id_prefix(name: Seq<char>) -> Seq<char> {
    let i = initials(pieces(name, seq!['-', '_']));
    if i.len() > 0 {
        i
    } else {
        name.take(if name.len() < 3 { name.len() as int } else { 3 })
    }
}

pub open spec fn hex_digit(d: nat) -> char {
    if d < 10 {
        ((d + 48) as u8) as char
    } else {
        ((d + 87) as u8) as char
    }
}

/// `n` in lower-case hexadecimal, without leading zeros.
pub open spec fn hex_text(n: nat) -> Seq<char>
    decreases n,
{
    if n < 16 {
        seq![hex_digit(n)]
    } else {
        hex_text(n / 16).push(hex_digit(n % 16))
    }
}

/// `c` is a lower-case hexadecimal digit.
pub open spec fn is_hex(c: char) -> bool {
    ('0' <= c && c <= '9') || ('a' <= c && c <= 'f')
}

/// `r` is four lower-case hexadecimal digits.
pub open spec fn hex4(r: Seq<char>) -> bool {
    r.len() == 4 && forall|i: int| 0 <= i < 4 ==> is_hex(#[trigger] r[i])
}

/// The id made from the store's parent directory name, a clock reading in
/// milliseconds and four random hexadecimal digits.
pub open spec fn id_text(name: Seq<char>, millis: nat, random: Seq<char>) -> Seq<char> {
    id_prefix(name) + seq!['-'] + hex_text(millis % 10000) + random
}

/// Relies on regex's `Regex::split` with the pattern `[-_]`: the parts of `s`
/// between `-` and `_` characters, empty parts included.
#[verifier::external_body]
fn split_on_dashes(s: &str) -> (r: Vec<String>)
    ensures
        r@.map_values(|x: String| x@) == pieces(s@, seq!['-', '_']),
{
    regex::Regex::new(r"[-_]").unwrap().split(s).map(String::from).collect()
}

/// Relies on uuid's `Uuid::new_v4` written in its simple form: 32 lower-case
/// hexadecimal digits, random.
#[verifier::external_body]
fn random_uuid_hex() -> (r: String)
    ensures
        r@.len() == 32,
        forall|i: int| 0 <= i < 32 ==> is_hex(#[trigger] r@[i]),
{
    uuid::Uuid::new_v4().as_simple().to_string()
}

fn hex_digit_char(d: u64) -> (r: char)
    requires
        d < 16,
    ensures
        r == hex_digit(d as nat),
{
    if d < 10 {
        ((d + 48) as u8) as char
    } else {
        ((d + 87) as u8) as char
    }
}

/// `n` in lower-case hexadecimal.
pub fn hex_chars(n: u64) -> (r: Vec<char>)
    ensures
        r@ == hex_text(n as nat),
    decreases n,
{
    if n < 16 {
        let r = vec![hex_digit_char(n)];
        assert(r@ =~= seq![hex_digit(n as nat)]);
        r
    } else {
        let mut r = hex_chars(n / 16);
        r.push(hex_digit_char(n % 16));
        r
    }
}

/// The name of the directory that holds the directory at `path`, or `unk`.
pub fn parent_dir_name(path: &str) -> (r: Vec<char>)
    ensures
        r@ == parent_name(path@),
{
    let p = chars_of(path);
    let slash = ['/'];
    assert(slash@ =~= seq!['/']);
    let parts = split_on(p.as_slice(), &slash);
    let ghost ps = views(parts@);
    let mut c: Vec<Vec<char>> = Vec::new();
    let mut i: usize = 0;
    while i < parts.len()
        invariant
            ps == views(parts@),
            ps.len() == parts@.len(),
            i <= parts@.len(),
            views(c@) == filled(ps.subrange(0, i as int)),
        decreases parts@.len() - i,
    {
        assert(ps.subrange(0, i + 1).drop_last() =~= ps.subrange(0, i as int));
        assert(ps[i as int] == parts@[i as int]@);
        let here = parts[i].len() == 1 && parts[i][0] == '.';
        proof {
            if parts@[i as int]@.len() == 1 {
                if parts@[i as int]@[0] == '.' {
                    assert(parts@[i as int]@ =~= seq!['.']);
                }
            }
        }
        if parts[i].len() > 0 && !here {
            let ghost before = c@;
            c.push(sub_chars(parts[i].as_slice(), 0, parts[i].len()));
            assert(parts@[i as int]@.subrange(0, parts@[i as int]@.len() as int) =~= parts@[i as int]@);
            assert(views(c@) =~= views(before).push(ps[i as int]));
        }
        i = i + 1;
    }
    assert(ps.subrange(0, ps.len() as int) =~= ps);
    let n = c.len();
    let up = n >= 2 && c[n - 2].len() == 2 && c[n - 2][0] == '.' && c[n - 2][1] == '.';
    proof {
        if n >= 2 {
            assert(views(c@)[n - 2] == c@[n - 2]@);
            if c@[n - 2]@.len() == 2 {
                if c@[n - 2]@[0] == '.' && c@[n - 2]@[1] == '.' {
                    assert(c@[n - 2]@ =~= seq!['.', '.']);
                }
            }
        }
    }
    if n >= 2 && !up {
        sub_chars(c[n - 2].as_slice(), 0, c[n - 2].len())
    } else {
        let r = vec!['u', 'n', 'k'];
        assert(r@ =~= unknown_name());
        r
    }
}

/// The id prefix for a store under the directory `name`.
pub fn prefix_for(name: &str) -> (r: Vec<char>)
    ensures
        r@ == id_prefix(name@),
{
    let parts = split_on_dashes(name);
    let ghost ps = parts@.map_values(|x: String| x@);
    let mut r: Vec<char> = Vec::new();
    let mut i: usize = 0;
    while i < parts.len()
        invariant
            ps == parts@.map_values(|x: String| x@),
            ps == pieces(name@, seq!['-', '_']),
            i <= parts@.len(),
            r@ == initials(ps.subrange(0, i as int)),
        decreases parts@.len() - i,
    {
        assert(ps.subrange(0, i + 1).drop_last() =~= ps.subrange(0, i as int));
        assert(ps[i as int] == parts@[i as int]@);
        let part = chars_of(parts[i].as_str());
        if part.len() > 0 {
            r.push(part[0]);
        }
        i = i + 1;
    }
    assert(ps.subrange(0, ps.len() as int) =~= ps);
    if r.len() > 0 {
        r
    } else {
        let all = chars_of(name);
        let k = if all.len() < 3 { all.len() } else { 3 };
        let t = sub_chars(all.as_slice(), 0, k);
        assert(t@ =~= name@.take(k as int));
        t
    }
}

/// The id for a store whose tickets directory is `tickets_dir`, given a clock
/// reading in milliseconds and four random hexadecimal digits.
pub fn id_from_parts(tickets_dir: &str, millis: u64, random: &str) -> (r: String)
    ensures
        r@ == id_text(parent_name(tickets_dir@), millis as nat, random@),
{
    let name = parent_dir_name(tickets_dir);
    let mut id = prefix_for(string_from_chars(name.as_slice()).as_str());
    id.push('-');
    let mut h = hex_chars(millis % 10000);
    id.append(&mut h);
    let mut tail = chars_of(random);
    id.append(&mut tail);
    let r = string_from_chars(id.as_slice());
    assert(r@ =~= id_text(parent_name(tickets_dir@), millis as nat, random@));
    r
}

/// A new id for a store whose tickets directory is `tickets_dir`, with the clock
/// reading `millis`: the random part is the first four digits of a fresh UUID.
pub fn new_id_at(tickets_dir: &str, millis: u64) -> (r: String)
    ensures
        exists|rand: Seq<char>| hex4(rand) && r@ == id_text(parent_name(tickets_dir@), millis as nat, rand),
{
    let u = chars_of(random_uuid_hex().as_str());
    let rand = sub_chars(u.as_slice(), 0, 4);
    let id = id_from_parts(tickets_dir, millis, string_from_chars(rand.as_slice()).as_str());
    assert(hex4(rand@));
    id
}

/// A new id for a store whose tickets directory is `tickets_dir`; fails only where
/// the clock cannot be read.
pub fn new_id(tickets_dir: &str) -> (r: Result<String, TicketError>)
    ensures
        match r {
            Ok(id) => exists|ms: nat, rand: Seq<char>|
                hex4(rand) && id@ == id_text(parent_name(tickets_dir@), ms, rand),
            Err(e) => e is ClockError,
        },
{
    let t = read_clock()?;
    Ok(new_id_at(tickets_dir, t.millis as u64))
}

} // verus!
