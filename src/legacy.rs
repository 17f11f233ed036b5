//! Reading documents of the older flat format, which carry no metadata block.
use vstd::prelude::*;
use crate::clock::{note_time_value, parse_note_time};
use crate::fold::{lower_of, lowercase};
use crate::scan::{
    double_at, find_double, find_double_chars, has_key_prefix, has_key_prefix_chars, lines_of,
    push_all, split_lines, strip_leading, strip_leading_chars, sub_chars, trim, trim_chars, views,
};
use crate::status::{Status, status_named};
use crate::text::{chars_of, string_from_chars};
use crate::ticket::{Note, Ticket, TicketError, Timestamp};

verus! {

/// What the scan of a legacy document has gathered after some of its lines.
pub struct LegacyScan {
    pub status: Option<Seq<char>>,
    pub description: Option<Seq<char>>,
    pub notes: Seq<(i64, Seq<char>)>,
    pub in_notes: bool,
}

pub open spec fn status_key() -> Seq<char> {
    seq!['s', 't', 'a', 't', 'u', 's', ':']
}

pub open spec fn description_key() -> Seq<char> {
    seq!['d', 'e', 's', 'c', 'r', 'i', 'p', 't', 'i', 'o', 'n', ':']
}

pub open spec fn notes_key() -> Seq<char> {
    seq!['n', 'o', 't', 'e', 's', ':']
}

pub open spec fn untitled() -> Seq<char> {
    seq!['U', 'n', 't', 'i', 't', 'l', 'e', 'd']
}

pub open spec fn task_type() -> Seq<char> {
    seq!['t', 'a', 's', 'k']
}

/// The note that a line `**timestamp**: content` of the notes section gives.
pub open spec fn note_of_line(line: Seq<char>) -> Option<(i64, Seq<char>)> {
    match find_double(line, 0, '*') {
        None => None,
        Some(p) => match find_double(line, p + 2, '*') {
            None => None,
            Some(q) => match note_time_value(line.subrange(p + 2, q)) {
                None => None,
                Some(ms) => Some((ms, trim(strip_leading(line.subrange(q + 2, line.len() as int), ':')))),
            },
        },
    }
}

/// The scan before any line after the first.
pub open spec fn scan_start() -> LegacyScan {
    LegacyScan { status: None, description: None, notes: Seq::empty(), in_notes: false }
}

/// The scan after one more line.
pub open spec fn scan_step(st: LegacyScan, raw: Seq<char>) -> LegacyScan {
    let line = trim(raw);
    if has_key_prefix(line, status_key()) {
        LegacyScan {
            status: Some(lower_of(trim(line.subrange(7, line.len() as int)))),
            in_notes: false,
            ..st
        }
    } else if has_key_prefix(line, description_key()) {
        LegacyScan {
            description: Some(trim(line.subrange(12, line.len() as int))),
            in_notes: false,
            ..st
        }
    } else if has_key_prefix(line, notes_key()) {
        LegacyScan { in_notes: true, ..st }
    } else if line.len() == 0 {
        st
    } else if st.in_notes {
        match note_of_line(line) {
            Some(n) => LegacyScan { notes: st.notes.push(n), ..st },
            None => st,
        }
    } else {
        LegacyScan {
            description: Some(
                match st.description {
                    None => line,
                    Some(d) => d + seq!['\n'] + line,
                },
            ),
            ..st
        }
    }
}

/// The scan of `lines[start..k]`.
pub open spec fn scan_from(lines: Seq<Seq<char>>, start: int, k: int) -> LegacyScan
    decreases k - start,
{
    if k <= start {
        scan_start()
    } else {
        scan_step(scan_from(lines, start, k - 1), lines[k - 1])
    }
}

/// The index of the first line at or after `i` that is not blank.
pub open spec fn first_filled(lines: Seq<Seq<char>>, i: int) -> Option<int>
    decreases lines.len() - i,
{
    if i < 0 || i >= lines.len() {
        None
    } else if trim(lines[i]).len() > 0 {
        Some(i)
    } else {
        first_filled(lines, i + 1)
    }
}

/// The title of a legacy document: its first non-blank line without the leading
/// `#` run, trimmed; `Untitled` where every line is blank.
pub open spec fn legacy_title(lines: Seq<Seq<char>>) -> Seq<char> {
    match first_filled(lines, 0) {
        Some(i) => trim(strip_leading(lines[i], '#')),
        None => untitled(),
    }
}

/// The index of the first line after the title line; the end where there is no
/// title line.
pub open spec fn body_start(lines: Seq<Seq<char>>) -> int {
    match first_filled(lines, 0) {
        Some(i) => i + 1,
        None => lines.len() as int,
    }
}

/// The scan of a whole document: the lines after its title line.
pub open spec fn legacy_scan(text: Seq<char>) -> LegacyScan {
    let ls = lines_of(text);
    scan_from(ls, body_start(ls), ls.len() as int)
}

pub open spec fn opt_view(o: Option<String>) -> Option<Seq<char>> {
    match o {
        Some(s) => Some(s@),
        None => None,
    }
}

pub open spec fn notes_view(v: Seq<Note>) -> Seq<(i64, Seq<char>)> {
    v.map_values(|n: Note| (n.timestamp.millis, n.content@))
}

/// The status that a legacy document states: `open` where it states none.
pub open spec fn legacy_status(st: LegacyScan) -> Option<Status> {
    match st.status {
        None => Some(Status::Open),
        Some(t) => status_named(t),
    }
}

fn key_chars(which: u8) -> (r: Vec<char>)
    requires
        which < 3,
    ensures
        which == 0 ==> r@ == status_key(),
        which == 1 ==> r@ == description_key(),
        which == 2 ==> r@ == notes_key(),
{
    let r = if which == 0 {
        vec!['s', 't', 'a', 't', 'u', 's', ':']
    } else if which == 1 {
        vec!['d', 'e', 's', 'c', 'r', 'i', 'p', 't', 'i', 'o', 'n', ':']
    } else {
        vec!['n', 'o', 't', 'e', 's', ':']
    };
    assert(which == 0 ==> r@ =~= status_key());
    assert(which == 1 ==> r@ =~= description_key());
    assert(which == 2 ==> r@ =~= notes_key());
    r
}

/// The note that a trimmed line of the notes section gives.
pub fn parse_note_line(line: &[char]) -> (r: Option<Note>)
    ensures
        match r {
            Some(n) => note_of_line(line@) == Some((n.timestamp.millis, n.content@)),
            None => note_of_line(line@) is None,
        },
{
    let n = line.len();
    let p = match find_double_chars(line, 0, '*') {
        Some(p) => p,
        None => return None,
    };
    assert(p + 1 < line@.len());
    let q = match find_double_chars(line, p + 2, '*') {
        Some(q) => q,
        None => return None,
    };
    proof {
        lemma_find_double_bounds(line@, p + 2, '*');
    }
    let stamp = string_from_chars(sub_chars(line, p + 2, q).as_slice());
    let ms = match parse_note_time(stamp.as_str()) {
        Some(ms) => ms,
        None => return None,
    };
    let rest = sub_chars(line, q + 2, n);
    let content = trim_chars(strip_leading_chars(rest.as_slice(), ':').as_slice());
    Some(Note { timestamp: Timestamp { millis: ms }, content: string_from_chars(content.as_slice()) })
}

proof fn lemma_find_double_bounds(s: Seq<char>, from: int, c: char)
    ensures
        find_double(s, from, c) matches Some(i) ==> from <= i && i + 1 < s.len() && double_at(s, i, c),
    decreases s.len() - from,
{
    if from >= 0 && from + 1 < s.len() && !double_at(s, from, c) {
        lemma_find_double_bounds(s, from + 1, c);
    }
}

} // verus!

verus! {

pub open spec fn chars_opt(o: Option<Vec<char>>) -> Option<Seq<char>> {
    match o {
        Some(v) => Some(v@),
        None => None,
    }
}

/// `t` is what the legacy document `content`, filed as `stem`, reads as in a store
/// tagged `project` and `category`, at `now`.
pub open spec fn legacy_ticket(
    t: Ticket,
    content: Seq<char>,
    stem: Seq<char>,
    project: Option<String>,
    category: Option<String>,
    now: Timestamp,
) -> bool {
    let st = legacy_scan(content);
    &&& legacy_status(st) == Some(t.status)
    &&& t.id@ == stem
    &&& t.title@ == legacy_title(lines_of(content))
    &&& opt_view(t.description) == st.description
    &&& notes_view(t.notes@) == st.notes
    &&& t.deps@.len() == 0
    &&& t.links@.len() == 0
    &&& t.created == now
    &&& t.issue_type@ == task_type()
    &&& t.priority == 2
    &&& t.design is None
    &&& t.acceptance is None
    &&& t.assignee is None
    &&& t.external_ref is None
    &&& t.parent is None
    &&& t.project == project
    &&& t.category == category
}

/// Reads a legacy document. `stem` is its file name without extension, which
/// becomes the id; `now` stands in for the creation time the format lacks.
pub fn parse_legacy_ticket(
    content: &str,
    stem: &str,
    project: Option<String>,
    category: Option<String>,
    now: Timestamp,
) -> (r: Result<Ticket, TicketError>)
    ensures
        match r {
            Ok(t) => legacy_ticket(t, content@, stem@, project, category, now),
            Err(e) => legacy_status(legacy_scan(content@)) is None && e is InvalidStatus,
        },
{
    let text = chars_of(content);
    let lines = split_lines(text.as_slice());
    let ghost ls = lines_of(content@);
    let n = lines.len();
    assert(views(lines@).len() == n);
    // The title: the first line that is not blank.
    let mut k: usize = 0;
    while k < n && trim_chars(lines[k].as_slice()).len() == 0
        invariant
            views(lines@) == ls,
            n == ls.len(),
            k <= n,
            first_filled(ls, 0) == first_filled(ls, k as int),
        decreases n - k,
    {
        assert(views(lines@)[k as int] == lines@[k as int]@);
        k = k + 1;
    }
    let title = if k < n {
        assert(views(lines@)[k as int] == lines@[k as int]@);
        trim_chars(strip_leading_chars(lines[k].as_slice(), '#').as_slice())
    } else {
        let u = vec!['U', 'n', 't', 'i', 't', 'l', 'e', 'd'];
        assert(u@ =~= untitled());
        u
    };
    let skey = key_chars(0);
    let dkey = key_chars(1);
    let nkey = key_chars(2);
    let mut status_text: Option<Vec<char>> = None;
    let mut description: Option<Vec<char>> = None;
    let mut notes: Vec<Note> = Vec::new();
    let mut in_notes = false;
    let start: usize = if k < n { k + 1 } else { n };
    assert(start as int == body_start(ls));
    let mut i: usize = start;
    assert(notes_view(notes@) =~= Seq::<(i64, Seq<char>)>::empty());
    while i < n
        invariant
            views(lines@) == ls,
            n == ls.len(),
            start <= i <= n,
            skey@ == status_key(),
            dkey@ == description_key(),
            nkey@ == notes_key(),
            scan_from(ls, start as int, i as int) == (LegacyScan {
                status: chars_opt(status_text),
                description: chars_opt(description),
                notes: notes_view(notes@),
                in_notes: in_notes,
            }),
        decreases n - i,
    {
        assert(views(lines@)[i as int] == lines@[i as int]@);
        let ghost prev = scan_from(ls, start as int, i as int);
        assert(scan_from(ls, start as int, i + 1) == scan_step(prev, ls[i as int]));
        let line = trim_chars(lines[i].as_slice());
        let m = line.len();
        if has_key_prefix_chars(line.as_slice(), skey.as_slice()) {
            let v = trim_chars(sub_chars(line.as_slice(), 7, m).as_slice());
            let low = lowercase(string_from_chars(v.as_slice()).as_str());
            status_text = Some(chars_of(low.as_str()));
            in_notes = false;
        } else if has_key_prefix_chars(line.as_slice(), dkey.as_slice()) {
            description = Some(trim_chars(sub_chars(line.as_slice(), 12, m).as_slice()));
            in_notes = false;
        } else if has_key_prefix_chars(line.as_slice(), nkey.as_slice()) {
            in_notes = true;
        } else if m == 0 {
        } else if in_notes {
            match parse_note_line(line.as_slice()) {
                Some(note) => {
                    let ghost before = notes@;
                    notes.push(note);
                    assert(notes_view(notes@) =~= notes_view(before).push(
                        (note.timestamp.millis, note.content@),
                    ));
                },
                None => {},
            }
        } else {
            match description {
                None => {
                    description = Some(line);
                },
                Some(mut d) => {
                    let ghost d0 = d@;
                    d.push('\n');
                    push_all(&mut d, line.as_slice());
                    assert(d@ =~= d0 + seq!['\n'] + line@);
                    description = Some(d);
                },
            }
        }
        i = i + 1;
    }
    assert(scan_from(ls, start as int, i as int) == legacy_scan(content@));
    let status = match status_text {
        None => Status::Open,
        Some(t) => {
            let name = string_from_chars(t.as_slice());
            match Status::parse(name.as_str()) {
                Some(s) => s,
                None => {
                    return Err(TicketError::InvalidStatus(name));
                },
            }
        },
    };
    let task = vec!['t', 'a', 's', 'k'];
    assert(task@ =~= task_type());
    let description = match description {
        Some(d) => Some(string_from_chars(d.as_slice())),
        None => None,
    };
    Ok(Ticket {
        id: string_from_chars(chars_of(stem).as_slice()),
        title: string_from_chars(title.as_slice()),
        status,
        deps: Vec::new(),
        links: Vec::new(),
        created: now,
        issue_type: string_from_chars(task.as_slice()),
        priority: 2,
        description,
        design: None,
        acceptance: None,
        assignee: None,
        external_ref: None,
        parent: None,
        project,
        category,
        notes,
    })
}

} // verus!
