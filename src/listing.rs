//! Listing and searching the tickets of the store.
use vstd::prelude::*;
use crate::fold::{lower_of, lowercase};
use crate::text::chars_of;
use crate::store::TicketManager;
use crate::ticket::Ticket;

verus! {

/// Newer tickets come first: creation times never increase along `s`.
pub open spec fn newest_first(s: Seq<Ticket>) -> bool {
    forall|i: int, j: int| 0 <= i < j < s.len() ==> s[i].created.millis >= s[j].created.millis
}

/// `p` is a permutation of `0..n`.
pub open spec fn is_perm(p: Seq<int>, n: int) -> bool {
    &&& p.len() == n
    &&& forall|k: int| 0 <= k < n ==> 0 <= #[trigger] p[k] < n
    &&& forall|k: int, l: int| 0 <= k < l < n ==> p[k] != p[l]
}

/// `r` holds the tickets of `s` in the order `p`, newest first, and tickets created
/// at the same instant keep their order in `s`.
pub open spec fn sorted_from(r: Seq<Ticket>, s: Seq<Ticket>, p: Seq<int>) -> bool {
    &&& is_perm(p, s.len() as int)
    &&& r.len() == s.len()
    &&& forall|k: int| 0 <= k < r.len() ==> r[k] == s[#[trigger] p[k]]
    &&& newest_first(r)
    &&& forall|k: int, l: int|
        0 <= k < l < r.len() && r[k].created == r[l].created ==> p[k] < p[l]
}

/// The tickets newest first; tickets created at the same instant keep their order.
pub fn sort_newest_first(tickets: Vec<Ticket>) -> (r: Vec<Ticket>)
    ensures
        exists|p: Seq<int>| sorted_from(r@, tickets@, p),
{
    let ghost ts = tickets@;
    let n = tickets.len();
    let mut rest = tickets;
    let mut r: Vec<Ticket> = Vec::new();
    let ghost mut p: Seq<int> = Seq::empty();
    let mut i: usize = 0;
    while i < n
        invariant
            n == ts.len(),
            i <= n,
            rest@ == ts.subrange(i as int, n as int),
            r@.len() == i,
            p.len() == i,
            forall|k: int| 0 <= k < i ==> 0 <= #[trigger] p[k] < i,
            forall|k: int, l: int| 0 <= k < l < i ==> p[k] != p[l],
            forall|k: int| 0 <= k < i ==> r@[k] == ts[#[trigger] p[k]],
            newest_first(r@),
            forall|k: int, l: int|
                0 <= k < l < i && r@[k].created == r@[l].created ==> p[k] < p[l],
        decreases n - i,
    {
        let t = rest.remove(0);
        assert(t == ts[i as int]);
        let m = t.created.millis;
        let mut pos: usize = 0;
        while pos < r.len() && r[pos].created.millis >= m
            invariant
                pos <= r@.len(),
                forall|k: int| 0 <= k < pos ==> r@[k].created.millis >= m,
            decreases r@.len() - pos,
        {
            pos = pos + 1;
        }
        let ghost r0 = r@;
        let ghost p0 = p;
        r.insert(pos, t);
        proof {
            p = p.insert(pos as int, i as int);
            assert forall|k: int| pos <= k < r0.len() implies r0[k].created.millis < m by {
                if pos < r0.len() {
                    assert(r0[pos as int].created.millis < m);
                    if k > pos {
                        assert(r0[pos as int].created.millis >= r0[k].created.millis);
                    }
                }
            }
            assert forall|k: int| 0 <= k < r@.len() implies r@[k] == (if k < pos {
                r0[k]
            } else if k == pos {
                t
            } else {
                r0[k - 1]
            }) && p[k] == (if k < pos {
                p0[k]
            } else if k == pos {
                i as int
            } else {
                p0[k - 1]
            }) by {}
            assert forall|k: int| 0 <= k < i + 1 implies 0 <= #[trigger] p[k] < i + 1 by {
                if k < pos {
                    assert(0 <= p0[k] < i);
                } else if k > pos {
                    assert(0 <= p0[k - 1] < i);
                }
            }
            assert forall|k: int, l: int| 0 <= k < l < i + 1 implies p[k] != p[l] by {
                if k < pos && l > pos {
                    assert(p0[k] != p0[l - 1]);
                } else if k > pos {
                    assert(p0[k - 1] != p0[l - 1]);
                } else if l < pos {
                    assert(p0[k] != p0[l]);
                } else if k < pos {
                    assert(p0[k] < i);
                } else {
                    assert(p0[l - 1] < i);
                }
            }
            assert forall|k: int| 0 <= k < i + 1 implies r@[k] == ts[#[trigger] p[k]] by {
                if k < pos {
                    assert(r0[k] == ts[p0[k]]);
                } else if k > pos {
                    assert(r0[k - 1] == ts[p0[k - 1]]);
                }
            }
            assert forall|k: int, l: int| 0 <= k < l < r@.len() implies r@[k].created.millis >= r@[l].created.millis by {
                if k < pos && l > pos {
                    assert(r0[k].created.millis >= r0[l - 1].created.millis);
                } else if k > pos {
                    assert(r0[k - 1].created.millis >= r0[l - 1].created.millis);
                } else if l < pos {
                    assert(r0[k].created.millis >= r0[l].created.millis);
                } else if k == pos {
                    assert(r0[l - 1].created.millis < m);
                }
            }
            assert forall|k: int, l: int|
                0 <= k < l < i + 1 && r@[k].created == r@[l].created implies p[k] < p[l] by {
                if k < pos && l > pos {
                    assert(p0[k] < p0[l - 1]);
                } else if k > pos {
                    assert(p0[k - 1] < p0[l - 1]);
                } else if l < pos {
                    assert(p0[k] < p0[l]);
                } else if k < pos {
                    assert(p0[k] < i);
                } else {
                    assert(r0[l - 1].created.millis < m);
                }
            }
        }
        i = i + 1;
        assert(rest@ =~= ts.subrange(i as int, n as int));
    }
    assert(sorted_from(r@, ts, p));
    r
}

/// `n` occurs in `h` as a run of consecutive characters.
pub open spec fn contains_text(h: Seq<char>, n: Seq<char>) -> bool {
    exists|i: int| 0 <= i && i + n.len() <= h.len() && #[trigger] h.subrange(i, i + n.len()) == n
}

/// Whether `needle` occurs in `hay`.
pub fn find_text(hay: &str, needle: &str) -> (r: bool)
    ensures
        r == contains_text(hay@, needle@),
{
    let h = chars_of(hay);
    let n = chars_of(needle);
    if n.len() > h.len() {
        return false;
    }
    let hl = h.len();
    let nl = n.len();
    let last = hl - nl;
    let mut i: usize = 0;
    while i <= last
        invariant
            hl == h@.len(),
            nl == n@.len(),
            last == hl - nl,
            h@ == hay@,
            n@ == needle@,
            n@.len() <= h@.len(),
            i <= h@.len() - n@.len() + 1,
            forall|k: int| 0 <= k < i ==> #[trigger] h@.subrange(k, k + n@.len()) != n@,
        decreases h@.len() - i,
    {
        let mut j: usize = 0;
        while j < nl && h[i + j] == n[j]
            invariant
                hl == h@.len(),
                nl == n@.len(),
                i + nl <= hl,
                j <= n@.len(),
                forall|k: int| 0 <= k < j ==> h@[i + k] == n@[k],
            decreases n@.len() - j,
        {
            j = j + 1;
        }
        if j == n.len() {
            assert(h@.subrange(i as int, i + n@.len()) =~= n@);
            return true;
        }
        assert(h@.subrange(i as int, i + n@.len())[j as int] != n@[j as int]);
        i = i + 1;
    }
    false
}

/// A ticket that a search for `q` finds: `q` occurs, without regard to case, in
/// its title, its description or its id.
pub open spec fn found_by(t: Ticket, q: Seq<char>) -> bool {
    let lq = lower_of(q);
    contains_text(lower_of(t.title@), lq) || (match t.description {
        Some(d) => contains_text(lower_of(d@), lq),
        None => false,
    }) || contains_text(lower_of(t.id@), lq)
}

/// Whether a search for `query` finds `t`.
pub fn ticket_matches(t: &Ticket, query: &str) -> (r: bool)
    ensures
        r == found_by(*t, query@),
{
    let q = lowercase(query);
    if find_text(lowercase(t.title.as_str()).as_str(), q.as_str()) {
        return true;
    }
    let in_description = match &t.description {
        Some(d) => find_text(lowercase(d.as_str()).as_str(), q.as_str()),
        None => false,
    };
    if in_description {
        return true;
    }
    find_text(lowercase(t.id.as_str()).as_str(), q.as_str())
}

/// The tickets of `s` that a search for `q` finds, in order.
pub open spec fn search_result(s: Seq<Ticket>, q: Seq<char>) -> Seq<Ticket>
    decreases s.len(),
{
    if s.len() == 0 {
        s
    } else if found_by(s.last(), q) {
        search_result(s.drop_last(), q).push(s.last())
    } else {
        search_result(s.drop_last(), q)
    }
}

/// The tickets that a search for `query` finds, in their order in `tickets`.
pub fn search(tickets: Vec<Ticket>, query: &str) -> (r: Vec<Ticket>)
    ensures
        r@ == search_result(tickets@, query@),
{
    let ghost ts = tickets@;
    let n = tickets.len();
    let mut rest = tickets;
    let mut r: Vec<Ticket> = Vec::new();
    let mut i: usize = 0;
    while i < n
        invariant
            n == ts.len(),
            i <= n,
            rest@ == ts.subrange(i as int, n as int),
            r@ == search_result(ts.subrange(0, i as int), query@),
        decreases n - i,
    {
        let t = rest.remove(0);
        assert(ts.subrange(0, i + 1).drop_last() =~= ts.subrange(0, i as int));
        assert(ts.subrange(0, i + 1).last() == t);
        if ticket_matches(&t, query) {
            r.push(t);
        }
        i = i + 1;
        assert(rest@ =~= ts.subrange(i as int, n as int));
    }
    assert(ts.subrange(0, n as int) =~= ts);
    r
}

impl TicketManager {
    /// The tickets read from the status directories (in scan order, then listing
    /// order; documents that failed to decode left out), newest first, ties kept in
    /// that order.
    pub fn list_tickets(&self, loaded: Vec<Ticket>) -> (r: Vec<Ticket>)
        ensures
            exists|p: Seq<int>| sorted_from(r@, loaded@, p),
    {
        sort_newest_first(loaded)
    }

    /// The listed tickets that a search for `query` finds, in list order.
    pub fn search_tickets(&self, loaded: Vec<Ticket>, query: &str) -> (r: Vec<Ticket>)
        ensures
            exists|s: Seq<Ticket>, p: Seq<int>|
                sorted_from(s, loaded@, p) && r@ == search_result(s, query@),
    {
        let all = self.list_tickets(loaded);
        let r = search(all, query);
        r
    }
}

} // verus!
