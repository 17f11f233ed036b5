//! The lifecycle statuses and their names on disk.
use vstd::prelude::*;

verus! {

/// One of the seven lifecycle states; each one names the directory that holds
/// the tickets in it.
#[derive(Clone, Copy, Debug, PartialEq, Eq, Structural)]
pub enum Status {
    Open,
    InProgress,
    Closed,
    Blocked,
    Ready,
    Icebox,
    Archive,
}

/// The statuses in the fixed order in which the store scans its directories.
pub open spec fn status_order() -> Seq<Status> {
    seq![
        Status::Open,
        Status::InProgress,
        Status::Closed,
        Status::Blocked,
        Status::Ready,
        Status::Icebox,
        Status::Archive,
    ]
}

/// The name under which a status is written and filed.
pub open spec fn status_name(s: Status) -> Seq<char> {
    match s {
        Status::Open => seq!['o', 'p', 'e', 'n'],
        Status::InProgress => seq!['i', 'n', '_', 'p', 'r', 'o', 'g', 'r', 'e', 's', 's'],
        Status::Closed => seq!['c', 'l', 'o', 's', 'e', 'd'],
        Status::Blocked => seq!['b', 'l', 'o', 'c', 'k', 'e', 'd'],
        Status::Ready => seq!['r', 'e', 'a', 'd', 'y'],
        Status::Icebox => seq!['i', 'c', 'e', 'b', 'o', 'x'],
        Status::Archive => seq!['a', 'r', 'c', 'h', 'i', 'v', 'e'],
    }
}

/// The status whose name is `t`, if any.
pub open spec fn status_named(t: Seq<char>) -> Option<Status> {
    if exists|s: Status| status_name(s) == t {
        Some(choose|s: Status| status_name(s) == t)
    } else {
        None
    }
}

/// Distinct statuses have distinct names.
pub proof fn lemma_status_name_injective(a: Status, b: Status)
    ensures
        status_name(a) == status_name(b) <==> a == b,
{
    if status_name(a) == status_name(b) {
        assert(status_name(a).len() == status_name(b).len());
        assert(status_name(a)[0] == status_name(b)[0]);
        assert(status_name(a)[1] == status_name(b)[1]);
    }
}

/// Naming a status and reading the name back gives the same status.
pub proof fn lemma_status_named_name(s: Status)
    ensures
        status_named(status_name(s)) == Some(s),
{
    let t = status_name(s);
    assert(exists|x: Status| status_name(x) == t);
    let c = choose|x: Status| status_name(x) == t;
    lemma_status_name_injective(c, s);
}

impl Status {
    /// Every status, in scan order.
    pub fn all() -> (r: Vec<Status>)
        ensures
            r@ == status_order(),
    {
        let r = vec![
            Status::Open,
            Status::InProgress,
            Status::Closed,
            Status::Blocked,
            Status::Ready,
            Status::Icebox,
            Status::Archive,
        ];
        assert(r@ =~= status_order());
        r
    }

    /// The status's name.
    pub fn as_str(&self) -> (r: String)
        ensures
            r@ == status_name(*self),
    {
        let v: Vec<char> = match self {
            Status::Open => vec!['o', 'p', 'e', 'n'],
            Status::InProgress => vec!['i', 'n', '_', 'p', 'r', 'o', 'g', 'r', 'e', 's', 's'],
            Status::Closed => vec!['c', 'l', 'o', 's', 'e', 'd'],
            Status::Blocked => vec!['b', 'l', 'o', 'c', 'k', 'e', 'd'],
            Status::Ready => vec!['r', 'e', 'a', 'd', 'y'],
            Status::Icebox => vec!['i', 'c', 'e', 'b', 'o', 'x'],
            Status::Archive => vec!['a', 'r', 'c', 'h', 'i', 'v', 'e'],
        };
        let r = crate::text::string_from_chars(&v);
        assert(r@ =~= status_name(*self));
        r
    }

    /// The status named `name`; `None` where no status has that name.
    pub fn parse(name: &str) -> (r: Option<Status>)
        ensures
            r == status_named(name@),
    {
        let all = Status::all();
        let key = crate::text::chars_of(name);
        let mut i: usize = 0;
        while i < all.len()
            invariant
                key@ == name@,
                all@ == status_order(),
                0 <= i <= all@.len(),
                forall|j: int| 0 <= j < i ==> status_name(#[trigger] all@[j]) != name@,
            decreases all@.len() - i,
        {
            let s = all[i];
            let n = s.as_str();
            let nv = crate::text::chars_of(n.as_str());
            if crate::scan::chars_eq(key.as_slice(), nv.as_slice()) {
                proof {
                    lemma_status_named_name(s);
                }
                return Some(s);
            }
            i = i + 1;
        }
        proof {
            if exists|x: Status| status_name(x) == name@ {
                let x = choose|x: Status| status_name(x) == name@;
                let k: int = match x {
                    Status::Open => 0,
                    Status::InProgress => 1,
                    Status::Closed => 2,
                    Status::Blocked => 3,
                    Status::Ready => 4,
                    Status::Icebox => 5,
                    Status::Archive => 6,
                };
                assert(all@[k] == x);
            }
        }
        None
    }
}

} // verus!
