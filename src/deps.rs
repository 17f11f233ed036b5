//! Dependency edges and the unblock-on-close cascade.
use vstd::prelude::*;
use crate::resolve::ids_view;
use crate::status::Status;
use crate::scan::chars_eq;
use crate::text::chars_of;
use crate::ticket::Ticket;

verus! {

/// `s` with `d` appended, unless it already holds `d`.
pub open spec fn with_dep(s: Seq<Seq<char>>, d: Seq<char>) -> Seq<Seq<char>> {
    if s.contains(d) {
        s
    } else {
        s.push(d)
    }
}

/// The position of the first `d` in `s`.
pub open spec fn first_pos(s: Seq<Seq<char>>, d: Seq<char>) -> int
    decreases s.len(),
{
    if s.len() == 0 || s[0] == d {
        0
    } else {
        1 + first_pos(s.drop_first(), d)
    }
}

/// `s` without its first `d`; `s` itself where it holds none.
pub open spec fn without_dep(s: Seq<Seq<char>>, d: Seq<char>) -> Seq<Seq<char>> {
    if s.contains(d) {
        s.remove(first_pos(s, d))
    } else {
        s
    }
}

/// `s` without any `d`.
pub open spec fn without_all(s: Seq<Seq<char>>, d: Seq<char>) -> Seq<Seq<char>>
    decreases s.len(),
{
    if s.len() == 0 {
        s
    } else {
        let rest = without_all(s.drop_last(), d);
        if s.last() == d {
            rest
        } else {
            rest.push(s.last())
        }
    }
}

/// The tickets that closing `id` unblocks: those blocked on it, in list order.
pub open spec fn unblock_targets(id: Seq<char>, ts: Seq<Ticket>) -> Seq<Ticket>
    decreases ts.len(),
{
    if ts.len() == 0 {
        ts
    } else {
        let rest = unblock_targets(id, ts.drop_last());
        if blocked_on(ts.last(), id) {
            rest.push(ts.last())
        } else {
            rest
        }
    }
}

/// `t` is blocked and depends on `id`.
pub open spec fn blocked_on(t: Ticket, id: Seq<char>) -> bool {
    t.status == Status::Blocked && ids_view(t.deps@).contains(id)
}

/// `a` and `b` agree in every field but `status` and `deps`.
pub open spec fn same_record(a: Ticket, b: Ticket) -> bool {
    &&& a.id == b.id
    &&& a.title == b.title
    &&& a.links == b.links
    &&& a.created == b.created
    &&& a.issue_type == b.issue_type
    &&& a.priority == b.priority
    &&& a.description == b.description
    &&& a.design == b.design
    &&& a.acceptance == b.acceptance
    &&& a.assignee == b.assignee
    &&& a.external_ref == b.external_ref
    &&& a.parent == b.parent
    &&& a.project == b.project
    &&& a.category == b.category
    &&& a.notes == b.notes
}

/// `u` is `t` unblocked by the closing of `id`: `ready`, and without `id` among its
/// dependencies.
pub open spec fn unblocked_from(u: Ticket, t: Ticket, id: Seq<char>) -> bool {
    &&& same_record(u, t)
    &&& u.status == Status::Ready
    &&& ids_view(u.deps@) == without_all(ids_view(t.deps@), id)
}

fn str_eq(a: &str, b: &str) -> (r: bool)
    ensures
        r == (a@ == b@),
{
    chars_eq(chars_of(a).as_slice(), chars_of(b).as_slice())
}

/// The position of the first `d` in `deps`, if any.
pub fn position_of(deps: &Vec<String>, d: &str) -> (r: Option<usize>)
    ensures
        match r {
            Some(k) => ids_view(deps@).contains(d@) && k as int == first_pos(ids_view(deps@), d@)
                && k < deps@.len(),
            None => !ids_view(deps@).contains(d@),
        },
{
    let ghost v = ids_view(deps@);
    let mut i: usize = 0;
    assert(v.subrange(0, v.len() as int) =~= v);
    while i < deps.len()
        invariant
            v == ids_view(deps@),
            i <= deps@.len(),
            forall|j: int| 0 <= j < i ==> v[j] != d@,
            first_pos(v, d@) == i + first_pos(v.subrange(i as int, v.len() as int), d@),
        decreases deps@.len() - i,
    {
        assert(v.subrange(i as int, v.len() as int)[0] == v[i as int]);
        if str_eq(deps[i].as_str(), d) {
            return Some(i);
        }
        assert(v.subrange(i as int, v.len() as int).drop_first() =~= v.subrange(i + 1, v.len() as int));
        i = i + 1;
    }
    None
}

/// Adds `d` to `deps` unless it is there; says whether it was added.
pub fn add_dep(deps: &mut Vec<String>, d: &str) -> (added: bool)
    ensures
        added == !ids_view(old(deps)@).contains(d@),
        ids_view(final(deps)@) == with_dep(ids_view(old(deps)@), d@),
{
    match position_of(deps, d) {
        Some(_) => false,
        None => {
            let ghost before = deps@;
            deps.push(String::from_str(d));
            assert(ids_view(deps@) =~= ids_view(before).push(d@));
            true
        },
    }
}

/// Removes the first `d` from `deps`; says whether there was one.
pub fn remove_dep(deps: &mut Vec<String>, d: &str) -> (found: bool)
    ensures
        found == ids_view(old(deps)@).contains(d@),
        ids_view(final(deps)@) == without_dep(ids_view(old(deps)@), d@),
{
    match position_of(deps, d) {
        Some(k) => {
            let ghost before = deps@;
            deps.remove(k);
            assert(ids_view(deps@) =~= ids_view(before).remove(k as int));
            true
        },
        None => false,
    }
}

proof fn lemma_first_pos_last(s: Seq<Seq<char>>, d: Seq<char>)
    requires
        !s.contains(d),
    ensures
        first_pos(s.push(d), d) == s.len(),
    decreases s.len(),
{
    if s.len() > 0 {
        assert(s.push(d).drop_first() =~= s.drop_first().push(d));
        assert(s[0] != d);
        assert(!s.drop_first().contains(d)) by {
            if s.drop_first().contains(d) {
                let j = choose|j: int| 0 <= j < s.drop_first().len() && s.drop_first()[j] == d;
                assert(s[j + 1] == d);
            }
        }
        lemma_first_pos_last(s.drop_first(), d);
    }
}

/// Adding a dependency that is not there and then removing it gives back the
/// dependency list as it was.
pub proof fn lemma_add_remove_restores(s: Seq<Seq<char>>, d: Seq<char>)
    requires
        !s.contains(d),
    ensures
        without_dep(with_dep(s, d), d) == s,
{
    lemma_first_pos_last(s, d);
    assert(s.push(d).contains(d)) by {
        assert(s.push(d)[s.len() as int] == d);
    }
    assert(s.push(d).remove(s.len() as int) =~= s);
}

/// `deps` without any `d`.
pub fn remove_all(deps: Vec<String>, d: &str) -> (r: Vec<String>)
    ensures
        ids_view(r@) == without_all(ids_view(deps@), d@),
{
    let mut r: Vec<String> = Vec::new();
    let ghost v = ids_view(deps@);
    let mut i: usize = 0;
    while i < deps.len()
        invariant
            v == ids_view(deps@),
            i <= deps@.len(),
            ids_view(r@) == without_all(v.subrange(0, i as int), d@),
        decreases deps@.len() - i,
    {
        assert(v.subrange(0, i + 1).drop_last() =~= v.subrange(0, i as int));
        if !str_eq(deps[i].as_str(), d) {
            let ghost before = r@;
            r.push(deps[i].clone());
            assert(ids_view(r@) =~= ids_view(before).push(v[i as int]));
        }
        i = i + 1;
    }
    assert(v.subrange(0, v.len() as int) =~= v);
    r
}

/// The tickets that closing `closing_id` unblocks, each moved to `ready` and without
/// `closing_id` among its dependencies, in list order.
pub fn cascade_unblock(closing_id: &str, tickets: Vec<Ticket>) -> (r: Vec<Ticket>)
    ensures
        r@.len() == unblock_targets(closing_id@, tickets@).len(),
        forall|j: int|
            0 <= j < r@.len() ==> unblocked_from(
                #[trigger] r@[j],
                unblock_targets(closing_id@, tickets@)[j],
                closing_id@,
            ),
{
    let ghost ts = tickets@;
    let mut r: Vec<Ticket> = Vec::new();
    let mut rest = tickets;
    let n = rest.len();
    let mut i: usize = 0;
    while rest.len() > 0
        invariant
            n == ts.len(),
            i + rest@.len() == n,
            rest@ == ts.subrange(i as int, n as int),
            r@.len() == unblock_targets(closing_id@, ts.subrange(0, i as int)).len(),
            forall|j: int|
                0 <= j < r@.len() ==> unblocked_from(
                    #[trigger] r@[j],
                    unblock_targets(closing_id@, ts.subrange(0, i as int))[j],
                    closing_id@,
                ),
        decreases rest@.len(),
    {
        let t = rest.remove(0);
        assert(t == ts[i as int]);
        let ghost pre = ts.subrange(0, i as int);
        assert(ts.subrange(0, i + 1).drop_last() =~= pre);
        assert(ts.subrange(0, i + 1).last() == t);
        let blocked = match t.status {
            Status::Blocked => true,
            _ => false,
        };
        if blocked && position_of(&t.deps, closing_id).is_some() {
            let ghost before = r@;
            let u = Ticket {
                status: Status::Ready,
                deps: remove_all(t.deps, closing_id),
                ..t
            };
            r.push(u);
            assert forall|j: int| 0 <= j < r@.len() implies unblocked_from(
                #[trigger] r@[j],
                unblock_targets(closing_id@, ts.subrange(0, i + 1))[j],
                closing_id@,
            ) by {
                if j < before.len() {
                    assert(r@[j] == before[j]);
                }
            }
        }
        i = i + 1;
        assert(rest@ =~= ts.subrange(i as int, n as int));
    }
    assert(ts.subrange(0, n as int) =~= ts);
    r
}

} // verus!
