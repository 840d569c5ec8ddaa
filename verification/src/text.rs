//! The text of a document and its line table: the conversion between
//! character offsets and line/character positions, and the edits that
//! replace a span of the text or all of it.

use crate::lsp::basic::{Position, Range};
use vstd::prelude::*;
use vstd::std_specs::cmp::PartialEqSpecImpl;
use vstd::std_specs::convert::FromSpecImpl;
use vstd::string::{StrSliceExecFns, StringExecFns};

verus! {

/// One line of a text: the offset of its first character, and the number of
/// characters before its line terminator (or before the end of the text).
pub struct Line {
    pub start: int,
    pub len: int,
}

impl Line {
    /// The offset just behind the line's last character: that of its line
    /// terminator, or the text's length on the last line.
    pub open spec fn end(self) -> int {
        self.start + self.len
    }
}

/// The line table of the text `s`: one entry per line, the lines parted by
/// `'\n'`. A text of `n` line terminators has `n + 1` lines; the last one is
/// empty where the text is empty or ends in a line terminator.
pub open spec fn line_table(s: Seq<char>) -> Seq<Line>
    decreases s.len(),
{
    if s.len() == 0 {
        seq![Line { start: 0, len: 0 }]
    } else {
        let t = line_table(s.drop_last());
        if s.last() == '\n' {
            t.push(Line { start: s.len() as int, len: 0 })
        } else {
            t.drop_last().push(Line { start: t.last().start, len: t.last().len + 1 })
        }
    }
}

/// The offset that the position `pos` names in the text `s`: the start of
/// its line plus its character; none where the text has no such line.
pub open spec fn offset_of(s: Seq<char>, pos: Position) -> Option<int> {
    let t = line_table(s);
    if pos.line < t.len() {
        Some(t[pos.line as int].start + pos.character)
    } else {
        None
    }
}

/// The position of `offset` as the lines from `i` on give it: on the first
/// of them whose end is not before `offset`.
pub open spec fn position_from(t: Seq<Line>, offset: int, i: int) -> Option<Position>
    decreases t.len() - i,
{
    if i < 0 || i >= t.len() {
        None
    } else if t[i].end() >= offset {
        Some(Position { line: i as u64, character: (offset - t[i].start) as u64 })
    } else {
        position_from(t, offset, i + 1)
    }
}

/// The position of `offset` in the text `s`: the first line whose end is not
/// before `offset`, and the distance from that line's start; none where
/// `offset` lies behind the end of the text.
pub open spec fn position_of(s: Seq<char>, offset: int) -> Option<Position> {
    position_from(line_table(s), offset, 0)
}

/// Whether `pos` names a place of the text `s`: one of its lines, and a
/// character of that line or the place just behind its last one.
pub open spec fn in_range(s: Seq<char>, pos: Position) -> bool {
    &&& pos.line < line_table(s).len()
    &&& pos.character <= line_table(s)[pos.line as int].len
}

/// What the line table of a text looks like: it starts at offset 0; each
/// line but the last ends at a line terminator, behind which the next line
/// starts; the last line ends where the text ends; no line holds a line
/// terminator.
pub proof fn lemma_line_table(s: Seq<char>)
    ensures
        line_table(s).len() >= 1,
        line_table(s).len() <= s.len() + 1,
        line_table(s)[0].start == 0,
        line_table(s).last().end() == s.len(),
        forall|i: int|
            0 <= i < line_table(s).len() ==> 0 <= (#[trigger] line_table(s)[i]).start
                && 0 <= line_table(s)[i].len && line_table(s)[i].end() <= s.len(),
        forall|i: int|
            0 <= i < line_table(s).len() - 1 ==> s[(#[trigger] line_table(s)[i]).end()] == '\n',
        forall|i: int, j: int|
            0 <= i < line_table(s).len() - 1 && j == i + 1 ==> (#[trigger] line_table(s)[j]).start
                == (#[trigger] line_table(s)[i]).end() + 1,
        forall|i: int, k: int|
            0 <= i < line_table(s).len() && (#[trigger] line_table(s)[i]).start <= k
                < line_table(s)[i].end() ==> #[trigger] s[k] != '\n',
    decreases s.len(),
{
    if s.len() > 0 {
        let r = s.drop_last();
        lemma_line_table(r);
        let t = line_table(r);
        let u = line_table(s);
        assert forall|i: int| 0 <= i < u.len() - 1 implies s[(#[trigger] u[i]).end()] == '\n' by {
            if i < t.len() - 1 {
                assert(u[i] == t[i]);
                assert(t[i + 1].start == t[i].end() + 1);
                assert(s[t[i].end()] == r[t[i].end()]);
            }
        }
        assert forall|i: int, j: int| 0 <= i < u.len() - 1 && j == i + 1 implies (#[trigger] u[j]).start
            == (#[trigger] u[i]).end() + 1 by {
            if i < t.len() - 1 {
                assert(u[i] == t[i]);
                if j < t.len() - 1 {
                    assert(u[j] == t[j]);
                }
            }
        }
        assert forall|i: int, k: int|
            0 <= i < u.len() && (#[trigger] u[i]).start <= k < u[i].end() implies #[trigger] s[k]
            != '\n' by {
            if i < t.len() - 1 {
                assert(u[i] == t[i]);
                assert(s[k] == r[k]);
            } else if i == t.len() - 1 && k < r.len() {
                assert(t[i].start <= k < t[i].end());
                assert(s[k] == r[k]);
            }
        }
    }
}

/// The lines of a text come one behind the other: an earlier line ends
/// before a later one starts.
pub proof fn lemma_lines_ordered(s: Seq<char>, i: int, j: int)
    requires
        0 <= i < j < line_table(s).len(),
    ensures
        line_table(s)[i].end() < line_table(s)[j].start,
    decreases j - i,
{
    lemma_line_table(s);
    if i + 1 < j {
        lemma_lines_ordered(s, i + 1, j);
    }
}

/// Lines that all end before `offset` are passed over.
proof fn lemma_position_skips(t: Seq<Line>, offset: int, i: int, l: int)
    requires
        0 <= i <= l <= t.len(),
        forall|j: int| i <= j < l ==> (#[trigger] t[j]).end() < offset,
    ensures
        position_from(t, offset, i) == position_from(t, offset, l),
    decreases l - i,
{
    if i < l {
        lemma_position_skips(t, offset, i + 1, l);
    }
}

/// A position of the text, turned into its offset and back, is the position
/// again.
pub proof fn lemma_position_round_trip(s: Seq<char>, pos: Position)
    requires
        in_range(s, pos),
    ensures
        offset_of(s, pos) is Some,
        position_of(s, offset_of(s, pos)->0) == Some(pos),
{
    let t = line_table(s);
    let l = pos.line as int;
    let o = t[l].start + pos.character;
    lemma_line_table(s);
    assert forall|j: int| 0 <= j < l implies (#[trigger] t[j]).end() < o by {
        lemma_lines_ordered(s, j, l);
    }
    lemma_position_skips(t, o, 0, l);
}

/// An offset of the text, turned into its position and back, is the offset
/// again.
pub proof fn lemma_offset_round_trip(s: Seq<char>, offset: int)
    requires
        0 <= offset <= s.len() <= u64::MAX,
    ensures
        position_of(s, offset) matches Some(pos) && in_range(s, pos) && offset_of(s, pos) == Some(
            offset,
        ),
{
    lemma_line_table(s);
    lemma_position_found(s, offset, 0);
}

/// From a line that starts at or before `offset`, the search for the
/// position of an offset of the text ends on a line that holds it.
proof fn lemma_position_found(s: Seq<char>, offset: int, i: int)
    requires
        0 <= offset <= s.len() <= u64::MAX,
        0 <= i < line_table(s).len(),
        line_table(s)[i].start <= offset,
    ensures
        position_from(line_table(s), offset, i) matches Some(pos) && in_range(s, pos)
            && offset_of(s, pos) == Some(offset),
    decreases line_table(s).len() - i,
{
    let t = line_table(s);
    lemma_line_table(s);
    if t[i].end() < offset {
        lemma_position_found(s, offset, i + 1);
    }
}

/// The number of line terminators before `offset` in the text `s`.
pub open spec fn newlines_before(s: Seq<char>, offset: int) -> int
    decreases offset,
{
    if offset <= 0 {
        0
    } else if s[offset - 1] == '\n' {
        newlines_before(s, offset - 1) + 1
    } else {
        newlines_before(s, offset - 1)
    }
}

/// The offset just behind the last line terminator before `offset` in the
/// text `s`, or 0 where there is none: where the line of `offset` starts.
pub open spec fn line_start_before(s: Seq<char>, offset: int) -> int
    decreases offset,
{
    if offset <= 0 {
        0
    } else if s[offset - 1] == '\n' {
        offset
    } else {
        line_start_before(s, offset - 1)
    }
}

/// The position of an offset of the text, counted out: its line is the
/// number of line terminators before it, its character the distance from
/// the last of them.
pub proof fn lemma_position_counted(s: Seq<char>, offset: int)
    requires
        0 <= offset <= s.len() <= u64::MAX,
    ensures
        0 <= line_start_before(s, offset) <= offset,
        0 <= newlines_before(s, offset) <= offset,
        position_of(s, offset) == Some(
            Position {
                line: newlines_before(s, offset) as u64,
                character: (offset - line_start_before(s, offset)) as u64,
            },
        ),
        newlines_before(s, offset) < line_table(s).len(),
        line_table(s)[newlines_before(s, offset)].start == line_start_before(s, offset),
    decreases offset,
{
    let t = line_table(s);
    lemma_line_table(s);
    if offset == 0 {
        let first = Position { line: 0, character: 0 };
        assert(in_range(s, first));
        lemma_position_round_trip(s, first);
    } else {
        lemma_position_counted(s, offset - 1);
        let l = newlines_before(s, offset - 1);
        let start = line_start_before(s, offset - 1);
        lemma_offset_round_trip(s, offset - 1);
        assert(t[l].start <= offset - 1 <= t[l].end());
        if s[offset - 1] == '\n' {
            assert(offset - 1 == t[l].end());
            assert(l < t.len() - 1);
            assert(t[l + 1].start == t[l].end() + 1);
            let next = Position { line: (l + 1) as u64, character: 0 };
            assert(in_range(s, next));
            lemma_position_round_trip(s, next);
        } else {
            if l < t.len() - 1 {
                assert(s[t[l].end()] == '\n');
            }
            assert(offset <= t[l].end());
            let next = Position { line: l as u64, character: (offset - start) as u64 };
            assert(in_range(s, next));
            lemma_position_round_trip(s, next);
        }
    }
}

/// The position of the last character of the text `s`: on its last line,
/// one before the line's end, or at its start where the line is empty.
pub open spec fn last_position(s: Seq<char>) -> Position {
    let last = line_table(s).last();
    Position {
        line: (line_table(s).len() - 1) as u64,
        character: if last.len == 0 {
            0
        } else {
            (last.len - 1) as u64
        },
    }
}

/// The model of a stored line table.
pub open spec fn line_models(lines: Seq<(usize, usize)>) -> Seq<Line> {
    Seq::new(lines.len(), |i: int| Line { start: lines[i].0 as int, len: lines[i].1 as int })
}

/// One change to a document: new text for a span of it, or, without a span,
/// for all of it.
#[derive(Clone, Debug, PartialEq, Eq)]
pub struct TextDocumentContentChangeEvent {
    pub range: Option<Range>,
    pub range_length: Option<u64>,
    pub text: String,
}

/// The two offsets that the positions of `range` name in the text `s`,
/// where both name a line of `s` and the offsets are in order within `s`:
/// the span that can be read out of the text.
pub open spec fn span_offsets(s: Seq<char>, range: Range) -> Option<(int, int)> {
    match (offset_of(s, range.start), offset_of(s, range.end)) {
        (Some(start), Some(end)) => if start <= end <= s.len() {
            Some((start, end))
        } else {
            None
        },
        _ => None,
    }
}

/// The two offsets that the positions of `range` name in the text `s`,
/// where both name a line of `s` and neither offset lies behind the end of
/// `s`: the two places between which a change puts its text. The second may
/// lie before the first.
pub open spec fn edit_offsets(s: Seq<char>, range: Range) -> Option<(int, int)> {
    match (offset_of(s, range.start), offset_of(s, range.end)) {
        (Some(start), Some(end)) => if start <= s.len() && end <= s.len() {
            Some((start, end))
        } else {
            None
        },
        _ => None,
    }
}

/// The text that a change makes of the text `s`: what stands before the
/// first offset that the change names, then the new text, then what stands
/// from the second offset on. Where the second offset lies before the first,
/// what stands between them comes twice, before the new text and behind it.
/// A change that names no span gives the new text alone. None where a
/// position names no line of `s`, or an offset lies behind the end of `s`:
/// no text comes of such a change, and it is not applied.
pub open spec fn edited(s: Seq<char>, change: TextDocumentContentChangeEvent) -> Option<Seq<char>> {
    match change.range {
        None => Some(change.text@),
        Some(range) => match edit_offsets(s, range) {
            Some((start, end)) => Some(
                s.subrange(0, start) + change.text@ + s.subrange(end, s.len() as int),
            ),
            None => None,
        },
    }
}

/// A change is applied exactly where it names no span, or both its positions
/// name a line of the text and an offset within the text.
pub proof fn lemma_edit_applies(s: Seq<char>, change: TextDocumentContentChangeEvent)
    ensures
        edited(s, change) is None <==> (change.range matches Some(range) && (offset_of(
            s,
            range.start,
        ) is None || offset_of(s, range.end) is None || offset_of(s, range.start)->0 > s.len()
            || offset_of(s, range.end)->0 > s.len())),
{
}

/// The text of a document together with its line table.
#[derive(Debug)]
pub struct TextDocument {
    data: String,
    lines: Vec<(usize, usize)>,
}

impl View for TextDocument {
    type V = Seq<char>;

    closed spec fn view(&self) -> Seq<char> {
        self.data@
    }
}

/// The line table of `data`, built by scanning its characters.
fn make_line_offsets(data: &str) -> (lines: Vec<(usize, usize)>)
    ensures
        line_models(lines@) == line_table(data@),
        data@.len() <= usize::MAX,
{
    let n = data.unicode_len();
    let mut lines: Vec<(usize, usize)> = Vec::new();
    let mut off: usize = 0;
    let mut i: usize = 0;
    for c in it: data.chars()
        invariant
            it.seq() == data@,
            n == data@.len(),
            i == it.index(),
            off <= i <= n,
            line_models(lines@).push(Line { start: off as int, len: i - off }) == line_table(
                data@.take(i as int),
            ),
    {
        let ghost before = data@.take(i as int);
        let ghost upto = data@.take(i + 1);
        assert(upto.drop_last() =~= before);
        assert(upto.last() == c);
        let ghost done = line_models(lines@);
        if c == '\n' {
            lines.push((off, i - off));
            assert(line_models(lines@) =~= done.push(Line { start: off as int, len: i - off }));
            off = i + 1;
        } else {
            assert(done.push(Line { start: off as int, len: i - off }).drop_last() =~= done);
        }
        i += 1;
    }
    assert(data@.take(i as int) =~= data@);
    let ghost done = line_models(lines@);
    lines.push((off, i - off));
    assert(line_models(lines@) =~= done.push(Line { start: off as int, len: i - off }));
    lines
}

impl TextDocument {
    #[verifier::type_invariant]
    spec fn line_table_current(&self) -> bool {
        &&& line_models(self.lines@) == line_table(self.data@)
        &&& self.data@.len() <= usize::MAX
    }

    /// The document of the empty text.
    pub fn new() -> (doc: Self)
        ensures
            doc@ == Seq::<char>::empty(),
    {
        let data = String::new();
        let lines = make_line_offsets(data.as_str());
        TextDocument { data, lines }
    }

    /// The document of the text `data`.
    pub fn from_text(data: String) -> (doc: Self)
        ensures
            doc@ == data@,
    {
        let lines = make_line_offsets(data.as_str());
        TextDocument { data, lines }
    }

    /// The text.
    pub fn as_str(&self) -> (text: &str)
        ensures
            text@ == self@,
    {
        self.data.as_str()
    }

    /// The number of characters of the text.
    pub fn char_len(&self) -> (n: usize)
        ensures
            n == self@.len(),
    {
        self.data.as_str().unicode_len()
    }

    /// The number of lines of the text.
    pub fn line_count(&self) -> (n: usize)
        ensures
            n == line_table(self@).len(),
    {
        proof {
            use_type_invariant(self);
        }
        self.lines.len()
    }

    /// The characters from offset `start` up to offset `end`, where these
    /// are in order within the text. `doc[start..end]` gives the same where
    /// they are, and may not be asked where they are not.
    pub fn get(&self, start: usize, end: usize) -> (r: Option<&str>)
        ensures
            match r {
                Some(text) => start <= end <= self@.len() && text@ == self@.subrange(
                    start as int,
                    end as int,
                ),
                None => !(start <= end <= self@.len()),
            },
    {
        let n = self.data.as_str().unicode_len();
        if start <= end && end <= n {
            Some(self.data.as_str().substring_char(start, end))
        } else {
            None
        }
    }

    /// The characters between the offsets that the two positions of `range`
    /// name, where both name a line and the offsets are in order within the
    /// text; none for a span whose end lies before its start.
    pub fn get_lsprange(&self, range: Range) -> (r: Option<&str>)
        ensures
            match span_offsets(self@, range) {
                Some((start, end)) => r matches Some(text) && text@ == self@.subrange(start, end),
                None => r is None,
            },
    {
        proof {
            use_type_invariant(self);
        }
        match self.lookup_offset(range.start) {
            Some(start) => match self.lookup_offset(range.end) {
                Some(end) => self.get(start, end),
                None => None,
            },
            None => None,
        }
    }

    /// The position of the text's last character: on the last line, one
    /// before that line's end, or at its start where the line is empty.
    pub fn last_char_pos(&self) -> (pos: Position)
        ensures
            pos == last_position(self@),
    {
        proof {
            use_type_invariant(self);
            lemma_line_table(self@);
        }
        let k = self.lines.len() - 1;
        let len = self.lines[k].1;
        assert(line_models(self.lines@)[k as int].len == len);
        Position { line: k as u64, character: if len == 0 { 0 } else { len as u64 - 1 } }
    }

    /// The offset that `pos` names: the start of its line plus its
    /// character. None where the text has no such line, and where the sum is
    /// more than any offset can be.
    pub fn lookup_offset(&self, pos: Position) -> (r: Option<usize>)
        ensures
            match r {
                Some(o) => offset_of(self@, pos) == Some(o as int),
                None => offset_of(self@, pos) matches Some(o) ==> o > usize::MAX,
            },
    {
        proof {
            use_type_invariant(self);
            lemma_line_table(self@);
        }
        if pos.line >= self.lines.len() as u64 {
            return None;
        }
        let off = self.lines[pos.line as usize].0;
        assert(line_models(self.lines@)[pos.line as int].start == off);
        if pos.character > (usize::MAX - off) as u64 {
            return None;
        }
        Some(off + pos.character as usize)
    }

    /// The position of `offset`: the first line whose end is not before it,
    /// and the distance from that line's start. None where `offset` lies
    /// behind the end of the text.
    pub fn lookup_pos(&self, offset: usize) -> (r: Option<Position>)
        ensures
            r == position_of(self@, offset as int),
            r is Some <==> offset <= self@.len(),
    {
        proof {
            use_type_invariant(self);
            lemma_line_table(self@);
        }
        let ghost t = line_table(self@);
        let mut i: usize = 0;
        while i < self.lines.len()
            invariant
                i <= self.lines.len(),
                t == line_table(self@),
                line_models(self.lines@) == t,
                position_of(self@, offset as int) == position_from(t, offset as int, i as int),
                i < t.len() ==> t[i as int].start <= offset,
                forall|j: int| 0 <= j < i ==> (#[trigger] t[j]).end() < offset,
            decreases self.lines.len() - i,
        {
            let (off, len) = self.lines[i];
            assert(t[i as int] == Line { start: off as int, len: len as int });
            proof {
                lemma_line_table(self@);
            }
            if offset - off <= len {
                return Some(Position { line: i as u64, character: (offset - off) as u64 });
            }
            i += 1;
        }
        proof {
            lemma_line_table(self@);
            assert(t.last().end() < offset);
        }
        None
    }

    /// Applies `change`: puts its text between what stands before the first
    /// offset it names and what stands from the second on, or in place of the
    /// whole text where it names no span, and brings the line table up to
    /// date. A change of which a position names no line, or an offset lies
    /// behind the end of the text, is not applied: the document stays as it
    /// is and the result is `None`.
    pub fn update(&mut self, change: TextDocumentContentChangeEvent) -> (r: Option<()>)
        ensures
            match edited(old(self)@, change) {
                Some(text) => r is Some && final(self)@ == text,
                None => r is None && final(self)@ == old(self)@,
            },
    {
        match change.range {
            None => {
                *self = TextDocument::from_text(change.text);
                Some(())
            },
            Some(range) => {
                let n = self.data.as_str().unicode_len();
                let start = match self.lookup_offset(range.start) {
                    Some(start) => start,
                    None => {
                        return None;
                    },
                };
                let end = match self.lookup_offset(range.end) {
                    Some(end) => end,
                    None => {
                        return None;
                    },
                };
                if start > n || end > n {
                    return None;
                }
                let mut data = String::from_str(self.data.as_str().substring_char(0, start));
                data.append(change.text.as_str());
                data.append(self.data.as_str().substring_char(end, n));
                let lines = make_line_offsets(data.as_str());
                *self = TextDocument { data, lines };
                Some(())
            },
        }
    }
}

impl Default for TextDocument {
    fn default() -> (doc: Self)
        ensures
            doc@ == Seq::<char>::empty(),
    {
        TextDocument::new()
    }
}

impl Clone for TextDocument {
    fn clone(&self) -> (doc: Self)
        ensures
            doc@ == self@,
    {
        TextDocument::from_text(self.data.clone())
    }
}

impl AsRef<str> for TextDocument {
    fn as_ref(&self) -> (text: &str)
        ensures
            text@ == self@,
    {
        self.data.as_str()
    }
}

impl std::ops::Deref for TextDocument {
    type Target = str;

    fn deref(&self) -> (text: &str)
        ensures
            text@ == self@,
    {
        self.data.as_str()
    }
}

impl std::ops::Index<std::ops::Range<usize>> for TextDocument {
    type Output = str;

    /// The characters from offset `index.start` up to offset `index.end`.
    /// The two must be in order within the text; `get` takes any two.
    fn index(&self, index: std::ops::Range<usize>) -> (text: &str)
        ensures
            text@ == self@.subrange(index.start as int, index.end as int),
    {
        self.data.as_str().substring_char(index.start, index.end)
    }
}

impl vstd::std_specs::core::IndexSpecImpl<std::ops::Range<usize>> for TextDocument {
    open spec fn index_req(&self, index: &std::ops::Range<usize>) -> bool {
        index.start <= index.end <= self@.len()
    }
}

impl PartialEq for TextDocument {
    fn eq(&self, other: &Self) -> (equal: bool) {
        self.data == other.data
    }
}

impl PartialEqSpecImpl for TextDocument {
    open spec fn obeys_eq_spec() -> bool {
        true
    }

    open spec fn eq_spec(&self, other: &Self) -> bool {
        self@ == other@
    }
}

impl Eq for TextDocument {

}

impl From<String> for TextDocument {
    fn from(data: String) -> (doc: Self)
        ensures
            doc@ == data@,
    {
        TextDocument::from_text(data)
    }
}

impl FromSpecImpl<String> for TextDocument {
    open spec fn obeys_from_spec() -> bool {
        false
    }

    open spec fn from_spec(data: String) -> Self {
        arbitrary()
    }
}

} // verus!
