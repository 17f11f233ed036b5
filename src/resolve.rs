//! Finding a ticket's file from its id or a leading part of it.
use vstd::prelude::*;
use crate::status::{Status, status_order};
use crate::scan::chars_eq;
use crate::text::chars_of;

verus! {

/// What the status directories hold: for each status, in scan order, the ids of
/// the documents in its directory, in listing order.
pub struct StoreListing {
    pub dirs: Vec<Vec<String>>,
}

/// `p` is a leading part of `s`.
pub open spec fn is_prefix(p: Seq<char>, s: Seq<char>) -> bool {
    p.len() <= s.len() && s.subrange(0, p.len() as int) == p
}

pub open spec fn ids_view(v: Seq<String>) -> Seq<Seq<char>> {
    v.map_values(|s: String| s@)
}

pub open spec fn dirs_view(v: Seq<Vec<String>>) -> Seq<Seq<Seq<char>>> {
    v.map_values(|d: Vec<String>| ids_view(d@))
}

/// The first position at or after `i` whose id is `id`.
pub open spec fn first_exact(ids: Seq<Seq<char>>, id: Seq<char>, i: int) -> Option<int>
    decreases ids.len() - i,
{
    if i < 0 || i >= ids.len() {
        None
    } else if ids[i] == id {
        Some(i)
    } else {
        first_exact(ids, id, i + 1)
    }
}

/// The first position at or after `i` whose id begins with `id`.
pub open spec fn first_prefixed(ids: Seq<Seq<char>>, id: Seq<char>, i: int) -> Option<int>
    decreases ids.len() - i,
{
    if i < 0 || i >= ids.len() {
        None
    } else if is_prefix(id, ids[i]) {
        Some(i)
    } else {
        first_prefixed(ids, id, i + 1)
    }
}

/// The id that `id` finds in one directory: an exact match first, else the first
/// id in listing order that begins with it.
pub open spec fn match_in(ids: Seq<Seq<char>>, id: Seq<char>) -> Option<Seq<char>> {
    match first_exact(ids, id, 0) {
        Some(k) => Some(ids[k]),
        None => match first_prefixed(ids, id, 0) {
            Some(k) => Some(ids[k]),
            None => None,
        },
    }
}

/// The first directory from the `d`-th on, in scan order, where `id` finds a ticket.
pub open spec fn match_from(dirs: Seq<Seq<Seq<char>>>, id: Seq<char>, d: int) -> Option<(Status, Seq<char>)>
    decreases dirs.len() - d,
{
    if d < 0 || d >= dirs.len() {
        None
    } else {
        match match_in(dirs[d], id) {
            Some(x) => Some((status_order()[d], x)),
            None => match_from(dirs, id, d + 1),
        }
    }
}

/// The scan-order position of a status.
pub open spec fn status_pos(s: Status) -> int {
    match s {
        Status::Open => 0,
        Status::InProgress => 1,
        Status::Closed => 2,
        Status::Blocked => 3,
        Status::Ready => 4,
        Status::Icebox => 5,
        Status::Archive => 6,
    }
}

/// Where `id` resolves: in the hinted directory if it finds a ticket there, else in
/// the first directory of the scan that does; `None` where nothing matches.
pub open spec fn resolution(dirs: Seq<Seq<Seq<char>>>, id: Seq<char>, hint: Option<Status>) -> Option<(Status, Seq<char>)> {
    match hint {
        Some(h) => match match_in(dirs[status_pos(h)], id) {
            Some(x) => Some((h, x)),
            None => match_from(dirs, id, 0),
        },
        None => match_from(dirs, id, 0),
    }
}

impl StoreListing {
    /// One list of ids for each of the seven statuses.
    pub open spec fn wf(&self) -> bool {
        self.dirs@.len() == 7
    }

    pub open spec fn view(&self) -> Seq<Seq<Seq<char>>> {
        dirs_view(self.dirs@)
    }
}

pub fn status_index(s: Status) -> (r: usize)
    ensures
        r as int == status_pos(s),
        status_order()[r as int] == s,
{
    match s {
        Status::Open => 0,
        Status::InProgress => 1,
        Status::Closed => 2,
        Status::Blocked => 3,
        Status::Ready => 4,
        Status::Icebox => 5,
        Status::Archive => 6,
    }
}

fn status_at(i: usize) -> (r: Status)
    requires
        i < 7,
    ensures
        r == status_order()[i as int],
{
    if i == 0 {
        Status::Open
    } else if i == 1 {
        Status::InProgress
    } else if i == 2 {
        Status::Closed
    } else if i == 3 {
        Status::Blocked
    } else if i == 4 {
        Status::Ready
    } else if i == 5 {
        Status::Icebox
    } else {
        Status::Archive
    }
}

fn starts_with_chars(s: &[char], p: &[char]) -> (r: bool)
    ensures
        r == is_prefix(p@, s@),
{
    if p.len() > s.len() {
        return false;
    }
    let mut i: usize = 0;
    while i < p.len()
        invariant
            p@.len() <= s@.len(),
            i <= p@.len(),
            forall|j: int| 0 <= j < i ==> s@[j] == p@[j],
        decreases p@.len() - i,
    {
        if s[i] != p[i] {
            assert(s@.subrange(0, p@.len() as int)[i as int] != p@[i as int]);
            return false;
        }
        i = i + 1;
    }
    assert(s@.subrange(0, p@.len() as int) =~= p@);
    true
}

/// The id that `id` finds among `ids`: an exact match first, else the first that
/// begins with it.
pub fn match_in_dir(ids: &Vec<String>, id: &str) -> (r: Option<String>)
    ensures
        match r {
            Some(x) => match_in(ids_view(ids@), id@) == Some(x@),
            None => match_in(ids_view(ids@), id@) is None,
        },
{
    let ghost v = ids_view(ids@);
    let key = chars_of(id);
    let n = ids.len();
    let mut i: usize = 0;
    while i < n
        invariant
            n == ids@.len(),
            v == ids_view(ids@),
            key@ == id@,
            i <= n,
            first_exact(v, id@, 0) == first_exact(v, id@, i as int),
        decreases n - i,
    {
        let c = chars_of(ids[i].as_str());
        if chars_eq(c.as_slice(), key.as_slice()) {
            return Some(ids[i].clone());
        }
        i = i + 1;
    }
    let mut i: usize = 0;
    while i < n
        invariant
            n == ids@.len(),
            v == ids_view(ids@),
            key@ == id@,
            i <= n,
            first_exact(v, id@, 0) is None,
            first_prefixed(v, id@, 0) == first_prefixed(v, id@, i as int),
        decreases n - i,
    {
        let c = chars_of(ids[i].as_str());
        if starts_with_chars(c.as_slice(), key.as_slice()) {
            return Some(ids[i].clone());
        }
        i = i + 1;
    }
    None
}

proof fn lemma_first_exact(ids: Seq<Seq<char>>, id: Seq<char>, i: int)
    requires
        0 <= i,
    ensures
        match first_exact(ids, id, i) {
            Some(k) => i <= k < ids.len() && ids[k] == id,
            None => forall|j: int| i <= j < ids.len() ==> ids[j] != id,
        },
    decreases ids.len() - i,
{
    if i < ids.len() && ids[i] != id {
        lemma_first_exact(ids, id, i + 1);
    }
}

proof fn lemma_first_prefixed(ids: Seq<Seq<char>>, id: Seq<char>, i: int)
    requires
        0 <= i,
    ensures
        match first_prefixed(ids, id, i) {
            Some(k) => i <= k < ids.len() && is_prefix(id, ids[k]),
            None => forall|j: int| i <= j < ids.len() ==> !is_prefix(id, #[trigger] ids[j]),
        },
    decreases ids.len() - i,
{
    if i < ids.len() && !is_prefix(id, ids[i]) {
        lemma_first_prefixed(ids, id, i + 1);
    }
}

/// `x` stands in the `d`-th directory and in no other.
pub open spec fn only_in(dirs: Seq<Seq<Seq<char>>>, x: Seq<char>, d: int) -> bool {
    &&& 0 <= d < dirs.len()
    &&& exists|k: int| 0 <= k < dirs[d].len() && dirs[d][k] == x
    &&& forall|e: int, k: int| 0 <= e < dirs.len() && e != d && 0 <= k < dirs[e].len() ==> dirs[e][k] != x
}

/// No id of the store but `x` begins with `p`.
pub open spec fn prefix_owned_by(dirs: Seq<Seq<Seq<char>>>, p: Seq<char>, x: Seq<char>) -> bool {
    forall|e: int, k: int|
        0 <= e < dirs.len() && 0 <= k < dirs[e].len() && #[trigger] dirs[e][k] != x ==> !is_prefix(p, dirs[e][k])
}

proof fn lemma_match_from_owned(dirs: Seq<Seq<Seq<char>>>, p: Seq<char>, x: Seq<char>, d0: int, d: int)
    requires
        dirs.len() == 7,
        only_in(dirs, x, d0),
        prefix_owned_by(dirs, p, x),
        is_prefix(p, x),
        p.len() < x.len(),
        0 <= d <= d0,
    ensures
        match_from(dirs, p, d) == Some((status_order()[d0], x)),
        match_from(dirs, x, d) == Some((status_order()[d0], x)),
    decreases d0 - d,
{
    let ids = dirs[d];
    lemma_first_exact(ids, x, 0);
    lemma_first_exact(ids, p, 0);
    lemma_first_prefixed(ids, p, 0);
    lemma_first_prefixed(ids, x, 0);
    assert forall|j: int| 0 <= j < ids.len() && ids[j] == p implies false by {
        assert(dirs[d][j] == p);
        assert(p.subrange(0, p.len() as int) =~= p);
        if dirs[d][j] != x {
            assert(!is_prefix(p, dirs[d][j]));
        }
    }
    if d < d0 {
        assert forall|j: int| 0 <= j < ids.len() implies ids[j] != x && !is_prefix(p, #[trigger] ids[j]) by {
            assert(dirs[d][j] != x);
        }
        assert forall|j: int| 0 <= j < ids.len() implies !is_prefix(x, #[trigger] ids[j]) by {
            if is_prefix(x, ids[j]) {
                assert(ids[j].subrange(0, p.len() as int) =~= ids[j].subrange(0, x.len() as int).subrange(0, p.len() as int));
                assert(is_prefix(p, ids[j]));
            }
        }
        assert(match_in(ids, x) is None);
        assert(match_in(ids, p) is None);
        lemma_match_from_owned(dirs, p, x, d0, d + 1);
    } else {
        let k = choose|k: int| 0 <= k < dirs[d].len() && dirs[d][k] == x;
        assert(match_in(ids, x) == Some(x));
        assert forall|j: int| 0 <= j < ids.len() && is_prefix(p, #[trigger] ids[j]) implies ids[j] == x by {
            assert(dirs[d][j] == ids[j]);
        }
        assert(exists|j: int| 0 <= j < ids.len() && is_prefix(p, #[trigger] ids[j]));
        assert(match_in(ids, p) == Some(x));
    }
}

/// Prefix resolution: where an id `x` has its one file in the store and no other id
/// begins with `p`, a proper leading part of `x`, then `p` resolves to the same
/// ticket as `x`.
pub proof fn lemma_unique_prefix_resolves(listing: StoreListing, x: Seq<char>, p: Seq<char>, d: int)
    requires
        listing.wf(),
        only_in(listing.view(), x, d),
        prefix_owned_by(listing.view(), p, x),
        is_prefix(p, x),
        p.len() < x.len(),
    ensures
        resolution(listing.view(), p, None) == resolution(listing.view(), x, None),
        resolution(listing.view(), x, None) == Some((status_order()[d], x)),
{
    lemma_match_from_owned(listing.view(), p, x, d, 0);
}

impl StoreListing {
    /// Where `id` (or a leading part of it) resolves, with an optional status to
    /// look in first: the status and the full id found, or `None`.
    pub fn resolve(&self, id: &str, hint: Option<Status>) -> (r: Option<(Status, String)>)
        requires
            self.wf(),
        ensures
            match r {
                Some((s, x)) => resolution(self.view(), id@, hint) == Some((s, x@)),
                None => resolution(self.view(), id@, hint) is None,
            },
    {
        let ghost v = self.view();
        if let Some(h) = hint {
            let k = status_index(h);
            assert(v[k as int] == ids_view(self.dirs@[k as int]@));
            if let Some(x) = match_in_dir(&self.dirs[k], id) {
                return Some((h, x));
            }
        }
        let mut d: usize = 0;
        while d < 7
            invariant
                self.wf(),
                v == self.view(),
                d <= 7,
                match_from(v, id@, 0) == match_from(v, id@, d as int),
                hint matches Some(h) ==> match_in(v[status_pos(h)], id@) is None,
            decreases 7 - d,
        {
            assert(v[d as int] == ids_view(self.dirs@[d as int]@));
            if let Some(x) = match_in_dir(&self.dirs[d], id) {
                assert(v.len() == 7);
                assert(match_from(v, id@, d as int) == Some((status_order()[d as int], x@)));
                return Some((status_at(d), x));
            }
            d = d + 1;
        }
        None
    }
}

} // verus!
