//! The ticket document: a metadata block between separator lines, a title
//! heading, the description, and a notes section.
use vstd::prelude::*;
use crate::clock::{format_note_time, note_time_text};
use crate::scan::{lemma_trim_between_newlines, push_all, sub_chars, trim, trim_chars};
use crate::text::{chars_of, string_from_chars};
use crate::ticket::{Note, Ticket, TicketError};

verus! {

/// The block separator.
pub open spec fn marker() -> Seq<char> {
    seq!['-', '-', '-']
}

/// A separator line starts at `i` in `s`: `---` alone on its line.
pub open spec fn marker_at(s: Seq<char>, i: int) -> bool {
    &&& 0 <= i
    &&& i + 3 <= s.len()
    &&& s.subrange(i, i + 3) == marker()
    &&& (i == 0 || s[i - 1] == '\n')
    &&& (i + 3 == s.len() || s[i + 3] == '\n')
}

/// The first separator line in `s` at or after `from`.
pub open spec fn find_marker(s: Seq<char>, from: int) -> Option<int>
    decreases s.len() - from,
{
    if from < 0 || from + 3 > s.len() {
        None
    } else if marker_at(s, from) {
        Some(from)
    } else {
        find_marker(s, from + 1)
    }
}

/// The metadata block of a document: the text between its first separator line
/// and the next one, trimmed; `None` where it has fewer than two separator lines.
pub open spec fn metadata_of(s: Seq<char>) -> Option<Seq<char>> {
    match find_marker(s, 0) {
        None => None,
        Some(a) => match find_marker(s, a + 3) {
            None => None,
            Some(b) => Some(trim(s.subrange(a + 3, b))),
        },
    }
}

pub open spec fn note_opening() -> Seq<char> {
    seq!['\n', '*', '*']
}

pub open spec fn note_closing() -> Seq<char> {
    seq!['*', '*', ':', ' ']
}

/// Written in place of a timestamp that has no calendar form.
pub open spec fn unknown_time() -> Seq<char> {
    seq!['?', '?', '?', '?', '-', '?', '?', '-', '?', '?', ' ', '?', '?', ':', '?', '?', ':', '?', '?']
}

/// The timestamp of a note as the notes section writes it.
pub open spec fn note_stamp(millis: i64) -> Seq<char> {
    match note_time_text(millis) {
        Some(t) => t,
        None => unknown_time(),
    }
}

/// A note as the notes section writes it: `**YYYY-MM-DD HH:MM:SS**: content` on a
/// line of its own.
pub open spec fn note_line(n: Note) -> Seq<char> {
    note_opening() + note_stamp(n.timestamp.millis) + note_closing() + n.content@
}

/// The notes in order, one line each.
pub open spec fn notes_text(ns: Seq<Note>) -> Seq<char>
    decreases ns.len(),
{
    if ns.len() == 0 {
        Seq::empty()
    } else {
        notes_text(ns.drop_last()) + note_line(ns.last())
    }
}

pub open spec fn block_opening() -> Seq<char> {
    seq!['-', '-', '-', '\n']
}

pub open spec fn block_closing() -> Seq<char> {
    seq!['\n', '-', '-', '-', '\n', '\n', '#', ' ']
}

pub open spec fn notes_heading() -> Seq<char> {
    seq!['\n', '\n', '#', '#', ' ', 'N', 'o', 't', 'e', 's', '\n']
}

/// The description part of the document of `t`.
pub open spec fn description_text(t: Ticket) -> Seq<char> {
    match t.description {
        Some(d) => seq!['\n', '\n'] + d@,
        None => Seq::empty(),
    }
}

/// The notes section of the document of `t`.
pub open spec fn notes_section(t: Ticket) -> Seq<char> {
    if t.notes@.len() > 0 {
        notes_heading() + notes_text(t.notes@)
    } else {
        Seq::empty()
    }
}

/// The document of `t` around the metadata block `meta`.
pub open spec fn document_text(meta: Seq<char>, t: Ticket) -> Seq<char> {
    block_opening() + trim(meta) + block_closing() + t.title@ + seq!['\n'] + description_text(t)
        + notes_section(t)
}

/// The first separator in `s` at or after `from`.
pub fn find_marker_chars(s: &[char], from: usize) -> (r: Option<usize>)
    ensures
        match r {
            Some(i) => find_marker(s@, from as int) == Some(i as int) && from <= i && i + 3 <= s@.len(),
            None => find_marker(s@, from as int) is None,
        },
{
    let n = s.len();
    let mut i = from;
    while i < n && n - i >= 3
        invariant
            n == s@.len(),
            from <= i,
            find_marker(s@, from as int) == find_marker(s@, i as int),
        decreases n - i,
    {
        let opens = i == 0 || s[i - 1] == '\n';
        let closes = i + 3 == n || s[i + 3] == '\n';
        if s[i] == '-' && s[i + 1] == '-' && s[i + 2] == '-' && opens && closes {
            assert(s@.subrange(i as int, i + 3) =~= marker());
            return Some(i);
        }
        assert(s@.subrange(i as int, i + 3)[0] == s@[i as int]);
        assert(s@.subrange(i as int, i + 3)[1] == s@[i + 1]);
        assert(s@.subrange(i as int, i + 3)[2] == s@[i + 2]);
        i = i + 1;
    }
    None
}

/// The metadata block of a document; a format error where it has fewer than two
/// separators.
pub fn split_document(content: &str) -> (r: Result<String, TicketError>)
    ensures
        match metadata_of(content@) {
            Some(m) => r matches Ok(x) && x@ == m,
            None => r matches Err(e) && e is FormatError,
        },
{
    let s = chars_of(content);
    let n = s.len();
    let a = match find_marker_chars(s.as_slice(), 0) {
        Some(a) => a,
        None => {
            return Err(TicketError::FormatError(String::from_str("missing metadata separator")));
        },
    };
    assert(a + 3 <= n);
    let b = match find_marker_chars(s.as_slice(), a + 3) {
        Some(b) => b,
        None => {
            return Err(TicketError::FormatError(String::from_str("unterminated metadata block")));
        },
    };
    let inner = sub_chars(s.as_slice(), a + 3, b);
    Ok(string_from_chars(trim_chars(inner.as_slice()).as_slice()))
}

/// Appends the line of note `n` to `out`.
fn push_note(out: &mut Vec<char>, n: &Note)
    ensures
        final(out)@ == old(out)@ + note_line(*n),
{
    let open = vec!['\n', '*', '*'];
    assert(open@ =~= note_opening());
    let close = vec!['*', '*', ':', ' '];
    assert(close@ =~= note_closing());
    push_all(out, open.as_slice());
    let stamp = match format_note_time(n.timestamp.millis) {
        Some(t) => chars_of(t.as_str()),
        None => {
            let u = vec!['?', '?', '?', '?', '-', '?', '?', '-', '?', '?', ' ', '?', '?', ':', '?', '?', ':', '?', '?'];
            assert(u@ =~= unknown_time());
            u
        },
    };
    push_all(out, stamp.as_slice());
    push_all(out, close.as_slice());
    let content = chars_of(n.content.as_str());
    push_all(out, content.as_slice());
    assert(out@ =~= old(out)@ + note_line(*n));
}

/// The document of `ticket` around the metadata block `metadata` (its serialized
/// fields): the block between separators, a heading with the title, the
/// description if there is one, and the notes section if there are notes.
pub fn render_document(metadata: &str, ticket: &Ticket) -> (r: String)
    ensures
        r@ == document_text(metadata@, *ticket),
{
    let mut out = vec!['-', '-', '-', '\n'];
    assert(out@ =~= block_opening());
    let meta = trim_chars(chars_of(metadata).as_slice());
    push_all(&mut out, meta.as_slice());
    let close = vec!['\n', '-', '-', '-', '\n', '\n', '#', ' '];
    assert(close@ =~= block_closing());
    push_all(&mut out, close.as_slice());
    push_all(&mut out, chars_of(ticket.title.as_str()).as_slice());
    out.push('\n');
    let ghost head = out@;
    match &ticket.description {
        Some(d) => {
            out.push('\n');
            out.push('\n');
            push_all(&mut out, chars_of(d.as_str()).as_slice());
        },
        None => {},
    }
    let ghost desc = description_text(*ticket);
    assert(out@ =~= head + desc);
    let ghost body = out@;
    if ticket.notes.len() > 0 {
        let heading = vec!['\n', '\n', '#', '#', ' ', 'N', 'o', 't', 'e', 's', '\n'];
        assert(heading@ =~= notes_heading());
        push_all(&mut out, heading.as_slice());
        let ghost start = out@;
        let mut i: usize = 0;
        while i < ticket.notes.len()
            invariant
                i <= ticket.notes@.len(),
                out@ == start + notes_text(ticket.notes@.subrange(0, i as int)),
            decreases ticket.notes@.len() - i,
        {
            assert(ticket.notes@.subrange(0, i + 1).drop_last() =~= ticket.notes@.subrange(0, i as int));
            push_note(&mut out, &ticket.notes[i]);
            i = i + 1;
            assert(out@ =~= start + notes_text(ticket.notes@.subrange(0, i as int)));
        }
        assert(ticket.notes@.subrange(0, ticket.notes@.len() as int) =~= ticket.notes@);
    }
    assert(out@ =~= document_text(metadata@, *ticket));
    string_from_chars(out.as_slice())
}

proof fn lemma_find_marker_at(s: Seq<char>, from: int, k: int)
    requires
        0 <= from <= k,
        marker_at(s, k),
        forall|i: int| from <= i < k ==> !marker_at(s, i),
    ensures
        find_marker(s, from) == Some(k),
    decreases k - from,
{
    if from < k {
        lemma_find_marker_at(s, from + 1, k);
    }
}

/// Framing: a document rendered around a metadata block that holds no separator
/// line gives that block back, trimmed, whatever the ticket's title, description
/// and notes.
pub proof fn lemma_frame_round_trip(meta: Seq<char>, t: Ticket)
    requires
        forall|i: int| !marker_at(trim(meta), i),
    ensures
        metadata_of(document_text(meta, t)) == Some(trim(meta)),
{
    let m = trim(meta);
    let doc = document_text(meta, t);
    let n = m.len() as int;
    let tail = t.title@ + seq!['\n'] + description_text(t) + notes_section(t);
    assert(doc =~= block_opening() + m + block_closing() + tail);
    assert(doc.subrange(0, 3) =~= marker());
    lemma_find_marker_at(doc, 0, 0);
    assert(doc[3] == '\n');
    assert(doc[4 + n] == '\n');
    assert forall|j: int| 0 <= j < n implies doc[4 + j] == m[j] by {}
    assert(doc.subrange(5 + n, 8 + n) =~= marker());
    assert forall|i: int| 3 <= i < 5 + n implies !marker_at(doc, i) by {
        if marker_at(doc, i) {
            let w = doc.subrange(i, i + 3);
            assert(w[0] == doc[i] && w[1] == doc[i + 1] && w[2] == doc[i + 2]);
            if i >= 4 && i + 3 <= 4 + n {
                assert(m.subrange(i - 4, i - 1) =~= w);
                assert(marker_at(m, i - 4));
            } else if i == 3 {
                assert(w[0] == '\n');
            } else if i == 4 + n - 2 {
                assert(w[2] == '\n');
            } else if i == 4 + n - 1 {
                assert(w[1] == '\n');
            } else {
                assert(w[0] == '\n');
            }
        }
    }
    lemma_find_marker_at(doc, 3, 5 + n);
    assert(doc.subrange(3, 5 + n) =~= seq!['\n'] + m + seq!['\n']);
    lemma_trim_between_newlines(meta);
}

} // verus!
