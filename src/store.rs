//! The ticket manager: where tickets live on disk and what each operation changes.
//! Operations here decide; the caller reads and writes the files.
use vstd::prelude::*;
use crate::deps::{
    add_dep, blocked_on, cascade_unblock, remove_dep, same_record, unblock_targets, unblocked_from,
    with_dep, without_all, without_dep,
};
use crate::ident::{hex4, id_text, new_id, new_id_at, parent_name};
use crate::legacy::{legacy_scan, legacy_status, legacy_ticket, parse_legacy_ticket};
use crate::resolve::ids_view;
use crate::scan::chars_eq;
use crate::status::{Status, status_name, status_named};
use crate::text::{chars_of, string_from_chars};
use crate::ticket::{CreateOptions, Note, Ticket, TicketError, Timestamp};

verus! {

/// The store: the tickets directory, and the project and category tags that the
/// tickets it creates carry.
#[derive(Clone, Debug)]
pub struct TicketManager {
    pub tickets_dir: String,
    pub project: Option<String>,
    pub category: Option<String>,
}

/// One change to the files of the store.
#[derive(Debug)]
pub enum StoreAction {
    /// Write the ticket's document into the directory of its status.
    Write(Ticket),
    /// Delete the document of the ticket with this id from this status's directory.
    Remove(Status, String),
}

/// `u` is `t` moved to status `s`, with nothing else changed.
pub open spec fn moved_to(u: Ticket, t: Ticket, s: Status) -> bool {
    same_record(u, t) && u.deps == t.deps && u.status == s
}

/// The changes that moving `t` to `s` makes, given every ticket of the store in
/// `all`: where `s` is `closed`, each ticket blocked on `t` is rewritten as ready
/// and its blocked copy deleted; then `t` is written under `s` and its old copy
/// deleted.
pub open spec fn transition_actions(acts: Seq<StoreAction>, t: Ticket, s: Status, all: Seq<Ticket>) -> bool {
    let u = if s == Status::Closed {
        unblock_targets(t.id@, all)
    } else {
        Seq::empty()
    };
    &&& acts.len() == 2 * u.len() + 2
    &&& forall|j: int|
        0 <= j < u.len() ==> {
            &&& (#[trigger] acts[2 * j]) matches StoreAction::Write(w) && unblocked_from(w, u[j], t.id@)
            &&& acts[2 * j + 1] == StoreAction::Remove(Status::Blocked, u[j].id)
        }
    &&& acts[2 * u.len() as int] matches StoreAction::Write(w) && moved_to(w, t, s)
    &&& acts[2 * u.len() as int + 1] == StoreAction::Remove(t.status, t.id)
}

/// The ticket that `create` files: `open`, with the options' fields, the store's
/// tags, and no dependencies, links or notes.
pub open spec fn created_from(t: Ticket, title: String, o: CreateOptions, m: TicketManager, now: Timestamp) -> bool {
    &&& t.title == title
    &&& t.status == Status::Open
    &&& t.deps@.len() == 0
    &&& t.links@.len() == 0
    &&& t.created == now
    &&& t.issue_type == o.issue_type
    &&& t.priority == o.priority
    &&& t.description == o.description
    &&& t.design == o.design
    &&& t.acceptance == o.acceptance
    &&& t.assignee == o.assignee
    &&& t.external_ref == o.external_ref
    &&& t.parent == o.parent
    &&& t.project == m.project
    &&& t.category == m.category
    &&& t.notes@.len() == 0
}

/// The fields a caller may change on a ticket, each where it is given.
#[derive(Clone, Debug)]
pub struct TicketUpdate {
    pub status: Option<String>,
    pub title: Option<String>,
    pub description: Option<String>,
    pub assignee: Option<String>,
    pub priority: Option<i32>,
}

/// A document found directly under the store root, a candidate for import.
#[derive(Clone, Debug)]
pub struct LegacyDocument {
    /// The file name without its extension.
    pub stem: String,
    pub content: String,
}

/// The document begins with the metadata block separator.
pub open spec fn starts_with_marker(s: Seq<char>) -> bool {
    s.len() >= 3 && s[0] == '-' && s[1] == '-' && s[2] == '-'
}

/// Whether a document is in the current format (it opens with a metadata block)
/// or in the legacy flat one.
#[derive(Clone, Copy, Debug, PartialEq, Eq, Structural)]
pub enum DocumentFormat {
    Legacy,
    Current,
}

/// The format of a document.
pub fn document_format(content: &str) -> (r: DocumentFormat)
    ensures
        r == (if starts_with_marker(content@) {
            DocumentFormat::Current
        } else {
            DocumentFormat::Legacy
        }),
{
    let c = chars_of(content);
    if c.len() >= 3 && c[0] == '-' && c[1] == '-' && c[2] == '-' {
        DocumentFormat::Current
    } else {
        DocumentFormat::Legacy
    }
}

/// The names of the directories where a store may live, in the order they are tried.
pub open spec fn location_name(i: int) -> Seq<char> {
    if i == 0 {
        seq!['.', 't', 'i', 'c', 'k', 'e', 't', 's']
    } else if i == 1 {
        seq!['t', 'i', 'c', 'k', 'e', 't', 's']
    } else if i == 2 {
        seq!['.', 't', 'i', 'c', 'k', 'e', 't']
    } else {
        seq!['t', 'i', 'c', 'k', 'e', 't']
    }
}

/// `base` joined with `name`.
pub open spec fn joined(base: Seq<char>, name: Seq<char>) -> Seq<char> {
    base + seq!['/'] + name
}

/// The first of the four store locations under a base, from the `i`-th on, that
/// exists.
pub open spec fn first_location(exists: Seq<bool>, i: int) -> Option<int>
    decreases 4 - i,
{
    if i < 0 || i >= 4 {
        None
    } else if exists[i] {
        Some(i)
    } else {
        first_location(exists, i + 1)
    }
}

fn location_chars(i: usize) -> (r: Vec<char>)
    requires
        i < 4,
    ensures
        r@ == location_name(i as int),
{
    let r = if i == 0 {
        vec!['.', 't', 'i', 'c', 'k', 'e', 't', 's']
    } else if i == 1 {
        vec!['t', 'i', 'c', 'k', 'e', 't', 's']
    } else if i == 2 {
        vec!['.', 't', 'i', 'c', 'k', 'e', 't']
    } else {
        vec!['t', 'i', 'c', 'k', 'e', 't']
    };
    assert(r@ =~= location_name(i as int));
    r
}

fn join(base: &str, name: &[char]) -> (r: String)
    ensures
        r@ == joined(base@, name@),
{
    let mut v = chars_of(base);
    v.push('/');
    let mut i: usize = 0;
    let ghost b = v@;
    while i < name.len()
        invariant
            i <= name@.len(),
            v@ == b + name@.subrange(0, i as int),
        decreases name@.len() - i,
    {
        v.push(name[i]);
        i = i + 1;
        assert(v@ =~= b + name@.subrange(0, i as int));
    }
    assert(name@.subrange(0, name@.len() as int) =~= name@);
    string_from_chars(v.as_slice())
}

/// The store location under `base`: `exists[i]` says whether the `i`-th candidate
/// (`.tickets`, `tickets`, `.ticket`, `ticket`) exists. The first that exists is
/// chosen; `None` where none does.
pub fn check_tickets_locations(base: &str, exists: &Vec<bool>) -> (r: Option<String>)
    requires
        exists@.len() == 4,
    ensures
        match first_location(exists@, 0) {
            Some(i) => r matches Some(p) && p@ == joined(base@, location_name(i)),
            None => r is None,
        },
{
    let mut i: usize = 0;
    while i < 4
        invariant
            exists@.len() == 4,
            i <= 4,
            first_location(exists@, 0) == first_location(exists@, i as int),
        decreases 4 - i,
    {
        if exists[i] {
            let name = location_chars(i);
            return Some(join(base, name.as_slice()));
        }
        i = i + 1;
    }
    None
}

impl TicketManager {
    pub fn new(tickets_dir: String, project: Option<String>, category: Option<String>) -> (r: Self)
        ensures
            r.tickets_dir == tickets_dir,
            r.project == project,
            r.category == category,
    {
        TicketManager { tickets_dir, project, category }
    }

    /// The directory of the status named `status`.
    pub fn get_status_dir(&self, status: &str) -> (r: String)
        ensures
            r@ == joined(self.tickets_dir@, status@),
    {
        join(self.tickets_dir.as_str(), chars_of(status).as_slice())
    }

    /// The path of the document of ticket `id` under status `status`.
    pub fn ticket_file(&self, status: Status, id: &str) -> (r: String)
        ensures
            r@ == joined(joined(self.tickets_dir@, status_name(status)), id@ + seq!['.', 'm', 'd']),
    {
        let dir = self.get_status_dir(status.as_str().as_str());
        let mut name = chars_of(id);
        name.push('.');
        name.push('m');
        name.push('d');
        join(dir.as_str(), name.as_slice())
    }

    /// Accepts exactly the seven status names.
    pub fn validate_status(&self, status: &str) -> (r: Result<(), TicketError>)
        ensures
            r is Ok <==> status_named(status@) is Some,
            r matches Err(e) ==> (e matches TicketError::InvalidStatus(n) && n@ == status@),
    {
        match Status::parse(status) {
            Some(_) => Ok(()),
            None => Err(TicketError::InvalidStatus(String::from_str(status))),
        }
    }

    /// A new id for this store.
    pub fn generate_id(&self) -> (r: Result<String, TicketError>)
        ensures
            match r {
                Ok(id) => exists|ms: nat, rand: Seq<char>|
                    hex4(rand) && id@ == id_text(parent_name(self.tickets_dir@), ms, rand),
                Err(e) => e is ClockError,
            },
    {
        new_id(self.tickets_dir.as_str())
    }

    /// The ticket that creating `title` with `options` files under `id` at `now`.
    pub fn build_ticket(&self, id: String, title: String, options: CreateOptions, now: Timestamp) -> (r: Ticket)
        ensures
            created_from(r, title, options, *self, now),
            r.id == id,
    {
        Ticket {
            id,
            title,
            status: Status::Open,
            deps: Vec::new(),
            links: Vec::new(),
            created: now,
            issue_type: options.issue_type,
            priority: options.priority,
            description: options.description,
            design: options.design,
            acceptance: options.acceptance,
            assignee: options.assignee,
            external_ref: options.external_ref,
            parent: options.parent,
            project: self.project.clone(),
            category: self.category.clone(),
            notes: Vec::new(),
        }
    }

    /// A new ticket titled `title`, created now, with a fresh id made from the same
    /// clock reading; it is filed under `open` whatever the options say. Fails only
    /// where the clock cannot be read.
    pub fn create_ticket(&self, title: String, options: CreateOptions) -> (r: Result<Ticket, TicketError>)
        ensures
            match r {
                Ok(t) => created_from(t, title, options, *self, t.created) && t.created.millis >= 0
                    && exists|rand: Seq<char>|
                    hex4(rand) && t.id@ == id_text(
                        parent_name(self.tickets_dir@),
                        t.created.millis as nat,
                        rand,
                    ),
                Err(e) => e is ClockError,
            },
    {
        let now = crate::clock::read_clock()?;
        let id = new_id_at(self.tickets_dir.as_str(), now.millis as u64);
        Ok(self.build_ticket(id, title, options, now))
    }

    /// Moves `ticket` to the status named `new_status`. `all` is every ticket of the
    /// store, read before the move; the closing cascade reads it. Returns the
    /// changes to make, none where the ticket already has that status.
    pub fn move_ticket_to_status(&self, ticket: Ticket, new_status: &str, all: Vec<Ticket>) -> (r: Result<Vec<StoreAction>, TicketError>)
        ensures
            match status_named(new_status@) {
                None => r matches Err(e) && (e matches TicketError::InvalidStatus(n) && n@ == new_status@),
                Some(s) => r matches Ok(acts) && if s == ticket.status {
                    acts@.len() == 0
                } else {
                    transition_actions(acts@, ticket, s, all@)
                },
            },
    {
        let target = match Status::parse(new_status) {
            Some(s) => s,
            None => {
                return Err(TicketError::InvalidStatus(String::from_str(new_status)));
            },
        };
        if target == ticket.status {
            return Ok(Vec::new());
        }
        let ghost u0 = if target == Status::Closed {
            unblock_targets(ticket.id@, all@)
        } else {
            Seq::empty()
        };
        let mut freed = if target == Status::Closed {
            cascade_unblock(ticket.id.as_str(), all)
        } else {
            Vec::new()
        };
        let mut acts: Vec<StoreAction> = Vec::new();
        let n = freed.len();
        let mut i: usize = 0;
        while i < n
            invariant
                n == u0.len(),
                i <= n,
                freed@.len() == n - i,
                forall|j: int| 0 <= j < freed@.len() ==> unblocked_from(#[trigger] freed@[j], u0[i + j], ticket.id@),
                acts@.len() == 2 * i,
                forall|j: int|
                    0 <= j < i ==> {
                        &&& (#[trigger] acts@[2 * j]) matches StoreAction::Write(w) && unblocked_from(w, u0[j], ticket.id@)
                        &&& acts@[2 * j + 1] == StoreAction::Remove(Status::Blocked, u0[j].id)
                    },
            decreases n - i,
        {
            let ghost before = acts@;
            let ghost rest = freed@;
            let u = freed.remove(0);
            assert(unblocked_from(rest[0], u0[i as int], ticket.id@));
            let id = u.id.clone();
            acts.push(StoreAction::Write(u));
            acts.push(StoreAction::Remove(Status::Blocked, id));
            assert forall|j: int| 0 <= j < freed@.len() implies unblocked_from(#[trigger] freed@[j], u0[i + 1 + j], ticket.id@) by {
                assert(freed@[j] == rest[j + 1]);
            }
            assert forall|j: int| 0 <= j < i + 1 implies {
                &&& (#[trigger] acts@[2 * j]) matches StoreAction::Write(w) && unblocked_from(w, u0[j], ticket.id@)
                &&& acts@[2 * j + 1] == StoreAction::Remove(Status::Blocked, u0[j].id)
            } by {
                if j < i {
                    assert(acts@[2 * j] == before[2 * j]);
                    assert(acts@[2 * j + 1] == before[2 * j + 1]);
                }
            }
            i = i + 1;
        }
        let old_status = ticket.status;
        let id = ticket.id.clone();
        acts.push(StoreAction::Write(Ticket { status: target, ..ticket }));
        acts.push(StoreAction::Remove(old_status, id));
        Ok(acts)
    }

    /// Adds `dep_id` to the ticket's dependencies unless it is there; says whether
    /// it was added (and so whether the ticket needs writing).
    pub fn add_dependency(&self, ticket: &mut Ticket, dep_id: &str) -> (added: bool)
        ensures
            added == !ids_view(old(ticket).deps@).contains(dep_id@),
            ids_view(final(ticket).deps@) == with_dep(ids_view(old(ticket).deps@), dep_id@),
            same_record(*final(ticket), *old(ticket)),
            final(ticket).status == old(ticket).status,
    {
        add_dep(&mut ticket.deps, dep_id)
    }

    /// Removes the first `dep_id` from the ticket's dependencies; says whether there
    /// was one.
    pub fn remove_dependency(&self, ticket: &mut Ticket, dep_id: &str) -> (found: bool)
        ensures
            found == ids_view(old(ticket).deps@).contains(dep_id@),
            ids_view(final(ticket).deps@) == without_dep(ids_view(old(ticket).deps@), dep_id@),
            same_record(*final(ticket), *old(ticket)),
            final(ticket).status == old(ticket).status,
    {
        remove_dep(&mut ticket.deps, dep_id)
    }

    /// Appends a note with `content`, stamped `at`, to the ticket's notes.
    pub fn add_note(&self, ticket: &mut Ticket, content: String, at: Timestamp)
        ensures
            final(ticket).notes@ == old(ticket).notes@.push(Note { timestamp: at, content }),
            final(ticket).id == old(ticket).id,
            final(ticket).title == old(ticket).title,
            final(ticket).status == old(ticket).status,
            final(ticket).deps == old(ticket).deps,
            final(ticket).links == old(ticket).links,
            final(ticket).created == old(ticket).created,
            final(ticket).issue_type == old(ticket).issue_type,
            final(ticket).priority == old(ticket).priority,
            final(ticket).description == old(ticket).description,
            final(ticket).design == old(ticket).design,
            final(ticket).acceptance == old(ticket).acceptance,
            final(ticket).assignee == old(ticket).assignee,
            final(ticket).external_ref == old(ticket).external_ref,
            final(ticket).parent == old(ticket).parent,
            final(ticket).project == old(ticket).project,
            final(ticket).category == old(ticket).category,
    {
        ticket.notes.push(Note { timestamp: at, content });
    }

    /// Applies `update` to `ticket`: each given field replaces the ticket's. A status
    /// that is not one of the seven is refused.
    pub fn apply_update(&self, ticket: Ticket, update: TicketUpdate) -> (r: Result<Ticket, TicketError>)
        ensures
            match update.status {
                Some(s) if status_named(s@) is None => r matches Err(e) && (e matches TicketError::InvalidStatus(n) && n == s),
                _ => r matches Ok(t) && {
                    &&& t.status == (match update.status {
                        Some(s) => status_named(s@).unwrap(),
                        None => ticket.status,
                    })
                    &&& t.title == (match update.title {
                        Some(x) => x,
                        None => ticket.title,
                    })
                    &&& t.description == (match update.description {
                        Some(x) => Some(x),
                        None => ticket.description,
                    })
                    &&& t.assignee == (match update.assignee {
                        Some(x) => Some(x),
                        None => ticket.assignee,
                    })
                    &&& t.priority == (match update.priority {
                        Some(x) => x,
                        None => ticket.priority,
                    })
                    &&& t.id == ticket.id
                    &&& t.deps == ticket.deps
                    &&& t.links == ticket.links
                    &&& t.created == ticket.created
                    &&& t.notes == ticket.notes
                    &&& t.issue_type == ticket.issue_type
                    &&& t.design == ticket.design
                    &&& t.acceptance == ticket.acceptance
                    &&& t.external_ref == ticket.external_ref
                    &&& t.parent == ticket.parent
                    &&& t.project == ticket.project
                    &&& t.category == ticket.category
                },
            },
    {
        let mut t = ticket;
        if let Some(s) = update.status {
            match Status::parse(s.as_str()) {
                Some(st) => {
                    t.status = st;
                },
                None => {
                    return Err(TicketError::InvalidStatus(s));
                },
            }
        }
        if let Some(x) = update.title {
            t.title = x;
        }
        if let Some(x) = update.description {
            t.description = Some(x);
        }
        if let Some(x) = update.assignee {
            t.assignee = Some(x);
        }
        if let Some(x) = update.priority {
            t.priority = x;
        }
        Ok(t)
    }

    /// Reads a legacy document into a ticket of this store, created at `now`.
    pub fn parse_bash_tk_ticket(&self, content: &str, stem: &str, now: Timestamp) -> (r: Result<Ticket, TicketError>)
        ensures
            match r {
                Ok(t) => legacy_ticket(t, content@, stem@, self.project, self.category, now),
                Err(e) => legacy_status(legacy_scan(content@)) is None && e is InvalidStatus,
            },
    {
        parse_legacy_ticket(content, stem, self.project.clone(), self.category.clone(), now)
    }
}

/// The documents of `docs` that are in the legacy format, in order.
pub open spec fn legacy_only(docs: Seq<LegacyDocument>) -> Seq<LegacyDocument>
    decreases docs.len(),
{
    if docs.len() == 0 {
        docs
    } else if starts_with_marker(docs.last().content@) {
        legacy_only(docs.drop_last())
    } else {
        legacy_only(docs.drop_last()).push(docs.last())
    }
}

pub open spec fn auto_source() -> Seq<char> {
    seq!['a', 'u', 't', 'o']
}

pub open spec fn flat_source() -> Seq<char> {
    seq!['b', 'a', 's', 'h', '-', 't', 'k']
}

/// Accepts the import sources the store knows: `auto` and `bash-tk`, the flat
/// legacy format.
pub fn migration_source(source: &str) -> (r: Result<(), TicketError>)
    ensures
        r is Ok <==> (source@ == auto_source() || source@ == flat_source()),
        r matches Err(e) ==> (e matches TicketError::MigrationUnsupported(n) && n@ == source@),
{
    let s = chars_of(source);
    let a = vec!['a', 'u', 't', 'o'];
    let f = vec!['b', 'a', 's', 'h', '-', 't', 'k'];
    assert(a@ =~= auto_source());
    assert(f@ =~= flat_source());
    if chars_eq(s.as_slice(), a.as_slice()) || chars_eq(s.as_slice(), f.as_slice()) {
        Ok(())
    } else {
        Err(TicketError::MigrationUnsupported(String::from_str(source)))
    }
}

impl TicketManager {
    /// Imports the documents found directly under the store root from `source`:
    /// each legacy one becomes a ticket created at `now`; those already in the
    /// current format are left alone. The caller writes the tickets and deletes the
    /// legacy files.
    pub fn migrate_tickets(&self, source: &str, documents: &Vec<LegacyDocument>, now: Timestamp) -> (r: Result<Vec<Ticket>, TicketError>)
        ensures
            !(source@ == auto_source() || source@ == flat_source()) ==> (r matches Err(e) && (e matches TicketError::MigrationUnsupported(n) && n@ == source@)),
            (source@ == auto_source() || source@ == flat_source()) && r is Err ==> (r matches Err(e) && e is InvalidStatus && exists|j: int|
                0 <= j < legacy_only(documents@).len() && legacy_status(
                    legacy_scan(#[trigger] legacy_only(documents@)[j].content@),
                ) is None),
            r matches Ok(ts) ==> {
                &&& (source@ == auto_source() || source@ == flat_source())
                &&& ts@.len() == legacy_only(documents@).len()
                &&& forall|j: int| 0 <= j < ts@.len() ==> legacy_ticket(
                    #[trigger] ts@[j],
                    legacy_only(documents@)[j].content@,
                    legacy_only(documents@)[j].stem@,
                    self.project,
                    self.category,
                    now,
                )
            },
            (source@ == auto_source() || source@ == flat_source()) && (forall|j: int|
                0 <= j < legacy_only(documents@).len() ==> legacy_status(
                    legacy_scan(#[trigger] legacy_only(documents@)[j].content@),
                ) is Some) ==> r is Ok,
    {
        let ghost ds = documents@;
        migration_source(source)?;
        let n = documents.len();
        let mut out: Vec<Ticket> = Vec::new();
        let mut i: usize = 0;
        while i < n
            invariant
                n == ds.len(),
                i <= n,
                source@ == auto_source() || source@ == flat_source(),
                ds == documents@,
                out@.len() == legacy_only(ds.subrange(0, i as int)).len(),
                forall|j: int| 0 <= j < out@.len() ==> legacy_ticket(
                    #[trigger] out@[j],
                    legacy_only(ds.subrange(0, i as int))[j].content@,
                    legacy_only(ds.subrange(0, i as int))[j].stem@,
                    self.project,
                    self.category,
                    now,
                ),
            decreases n - i,
        {
            let d = &documents[i];
            assert(ds.subrange(0, i + 1).drop_last() =~= ds.subrange(0, i as int));
            assert(ds.subrange(0, i + 1).last() == *d);
            if let DocumentFormat::Legacy = document_format(d.content.as_str()) {
                let ghost before = out@;
                let t = match self.parse_bash_tk_ticket(d.content.as_str(), d.stem.as_str(), now) {
                    Ok(t) => t,
                    Err(e) => {
                        proof {
                            let pre = legacy_only(ds.subrange(0, i + 1));
                            assert(!starts_with_marker(d.content@));
                            assert(pre == legacy_only(ds.subrange(0, i as int)).push(*d));
                            assert(pre.last() == *d);
                            lemma_legacy_only_prefix(ds, i + 1);
                            let k = pre.len() - 1;
                            assert(pre[k] == legacy_only(ds)[k]);
                            assert(legacy_status(legacy_scan(d.content@)) is None);
                            assert(0 <= k < legacy_only(ds).len());
                            assert(legacy_status(legacy_scan(legacy_only(ds)[k].content@)) is None);
                        }
                        return Err(e);
                    },
                };
                out.push(t);
                assert forall|j: int| 0 <= j < out@.len() implies legacy_ticket(
                    #[trigger] out@[j],
                    legacy_only(ds.subrange(0, i + 1))[j].content@,
                    legacy_only(ds.subrange(0, i + 1))[j].stem@,
                    self.project,
                    self.category,
                    now,
                ) by {
                    if j < before.len() {
                        assert(out@[j] == before[j]);
                    }
                }
            }
            i = i + 1;
        }
        assert(ds.subrange(0, n as int) =~= ds);
        Ok(out)
    }
}

/// The legacy documents of a prefix of `ds` are a prefix of those of `ds`.
proof fn lemma_legacy_only_prefix(ds: Seq<LegacyDocument>, k: int)
    requires
        0 <= k <= ds.len(),
    ensures
        legacy_only(ds.subrange(0, k)).len() <= legacy_only(ds).len(),
        forall|j: int| 0 <= j < legacy_only(ds.subrange(0, k)).len() ==>
            legacy_only(ds.subrange(0, k))[j] == #[trigger] legacy_only(ds)[j],
    decreases ds.len() - k,
{
    if k < ds.len() {
        lemma_legacy_only_prefix(ds, k + 1);
        assert(ds.subrange(0, k + 1).drop_last() =~= ds.subrange(0, k));
    } else {
        assert(ds.subrange(0, k) =~= ds);
    }
}

/// Closing a ticket `a` that is open, in a store where `b` is blocked on `a` alone,
/// rewrites `b` as ready with no dependencies, deletes its blocked copy, writes `a`
/// under `closed` and deletes its open copy.
pub proof fn lemma_close_unblocks(a: Ticket, b: Ticket, acts: Seq<StoreAction>)
    requires
        a.status == Status::Open,
        b.status == Status::Blocked,
        ids_view(b.deps@) == seq![a.id@],
        transition_actions(acts, a, Status::Closed, seq![a, b]),
    ensures
        acts.len() == 4,
        acts[0] matches StoreAction::Write(w) && w.id == b.id && w.status == Status::Ready
            && w.deps@.len() == 0,
        acts[1] == StoreAction::Remove(Status::Blocked, b.id),
        acts[2] matches StoreAction::Write(w) && w.id == a.id && w.status == Status::Closed,
        acts[3] == StoreAction::Remove(Status::Open, a.id),
{
    let all = seq![a, b];
    assert(all.drop_last() =~= seq![a]);
    assert(seq![a].drop_last() =~= Seq::<Ticket>::empty());
    assert(ids_view(b.deps@)[0] == a.id@);
    assert(blocked_on(b, a.id@));
    assert(!blocked_on(a, a.id@));
    assert(unblock_targets(a.id@, Seq::<Ticket>::empty()) == Seq::<Ticket>::empty());
    assert(seq![a].last() == a);
    assert(unblock_targets(a.id@, seq![a]) =~= Seq::<Ticket>::empty());
    assert(unblock_targets(a.id@, all) =~= seq![b]);
    let d = seq![a.id@];
    assert(d.drop_last() =~= Seq::<Seq<char>>::empty());
    assert(without_all(Seq::<Seq<char>>::empty(), a.id@) == Seq::<Seq<char>>::empty());
    assert(d.last() == a.id@);
    assert(without_all(d, a.id@) =~= Seq::<Seq<char>>::empty());
    let u = unblock_targets(a.id@, all);
    assert(u[0] == b);
    let z: int = 0;
    assert(acts[2 * z] matches StoreAction::Write(w) && unblocked_from(w, u[z], a.id@));
    assert(acts[2 * z + 1] == StoreAction::Remove(Status::Blocked, u[z].id));
    if let StoreAction::Write(w) = acts[0] {
        assert(ids_view(w.deps@).len() == w.deps@.len());
    }
}

} // verus!
