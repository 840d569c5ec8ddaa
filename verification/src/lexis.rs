//! The lexical layer of the language: blanks and comments, words, names and
//! numbers, each as a function on the characters of the text and a cursor.

use vstd::prelude::*;
use vstd::string::StrSliceExecFns;

verus! {

/// `String::push`: the character is appended to the string.
pub assume_specification[ std::string::String::push ](s: &mut std::string::String, c: char)
    ensures
        final(s)@ == old(s)@.push(c),
;

/// A character that parts tokens: space, tab or line feed.
pub open spec fn is_blank(c: char) -> bool {
    c == ' ' || c == '\t' || c == '\n'
}

/// A character of a name: an ASCII letter.
pub open spec fn is_letter(c: char) -> bool {
    ('a' <= c && c <= 'z') || ('A' <= c && c <= 'Z')
}

/// A decimal digit.
pub open spec fn is_digit(c: char) -> bool {
    '0' <= c && c <= '9'
}

/// Whether the character at `pos` is `c`.
pub open spec fn char_at(s: Seq<char>, pos: int, c: char) -> bool {
    0 <= pos < s.len() && s[pos] == c
}

/// Whether the characters of `w` stand in `s` from `pos` on.
pub open spec fn word_at(s: Seq<char>, pos: int, w: Seq<char>) -> bool {
    &&& 0 <= pos
    &&& pos + w.len() <= s.len()
    &&& forall|i: int| 0 <= i < w.len() ==> s[pos + i] == #[trigger] w[i]
}

/// The end of the line that `pos` is on: the offset of the next line feed at
/// or behind `pos`, or the end of the text.
pub open spec fn line_end(s: Seq<char>, pos: int) -> int
    decreases s.len() - pos,
{
    if 0 <= pos < s.len() && s[pos] != '\n' {
        line_end(s, pos + 1)
    } else {
        pos
    }
}

/// The offset just behind the first `*/` that starts at or behind `pos`.
pub open spec fn comment_end(s: Seq<char>, pos: int) -> Option<int>
    decreases s.len() - pos,
{
    if 0 <= pos && pos + 1 < s.len() {
        if s[pos] == '*' && s[pos + 1] == '/' {
            Some(pos + 2)
        } else {
            comment_end(s, pos + 1)
        }
    } else {
        None
    }
}

/// Where a comment that starts at `pos` ends: a `//` comment at the end of
/// its line, a `/*` comment behind the first `*/` that follows. None where
/// no comment starts at `pos`; a `/*` that is never closed starts none.
pub open spec fn comment_at(s: Seq<char>, pos: int) -> Option<int> {
    if char_at(s, pos, '/') && char_at(s, pos + 1, '/') {
        Some(line_end(s, pos + 2))
    } else if char_at(s, pos, '/') && char_at(s, pos + 1, '*') {
        comment_end(s, pos + 2)
    } else {
        None
    }
}

/// The offset of the first character at or behind `pos` that is neither a
/// blank nor part of a comment: where the next token starts.
pub open spec fn skip_blank(s: Seq<char>, pos: int) -> int
    decreases s.len() - pos,
{
    if 0 <= pos < s.len() && is_blank(s[pos]) {
        skip_blank(s, pos + 1)
    } else {
        match comment_at(s, pos) {
            Some(end) => if pos < end <= s.len() {
                skip_blank(s, end)
            } else {
                pos
            },
            None => pos,
        }
    }
}

/// The end of the run of letters that starts at `pos`.
pub open spec fn letters_end(s: Seq<char>, pos: int) -> int
    decreases s.len() - pos,
{
    if 0 <= pos < s.len() && is_letter(s[pos]) {
        letters_end(s, pos + 1)
    } else {
        pos
    }
}

/// The end of the run of digits that starts at `pos`.
pub open spec fn digits_end(s: Seq<char>, pos: int) -> int
    decreases s.len() - pos,
{
    if 0 <= pos < s.len() && is_digit(s[pos]) {
        digits_end(s, pos + 1)
    } else {
        pos
    }
}

/// The number that the decimal digits `ds` write.
pub open spec fn decimal(ds: Seq<char>) -> nat
    decreases ds.len(),
{
    if ds.len() == 0 {
        0
    } else {
        decimal(ds.drop_last()) * 10 + (ds.last() as nat - '0' as nat) as nat
    }
}

/// The name at `pos`: its characters and where it ends. A name is a run of
/// one or more letters.
pub open spec fn name_at(s: Seq<char>, pos: int) -> Option<(Seq<char>, int)> {
    if 0 <= pos < letters_end(s, pos) {
        Some((s.subrange(pos, letters_end(s, pos)), letters_end(s, pos)))
    } else {
        None
    }
}

/// The number at `pos`: its value and where it ends. A number is a run of
/// one or more digits whose value a `u32` holds.
pub open spec fn number_at(s: Seq<char>, pos: int) -> Option<(u32, int)> {
    if 0 <= pos < digits_end(s, pos) && decimal(s.subrange(pos, digits_end(s, pos))) <= u32::MAX {
        Some((decimal(s.subrange(pos, digits_end(s, pos))) as u32, digits_end(s, pos)))
    } else {
        None
    }
}

/// Every one of the scans above ends at or behind its start, and within the
/// text where it starts within the text.
pub proof fn lemma_scan_bounds(s: Seq<char>, pos: int)
    requires
        0 <= pos <= s.len(),
    ensures
        pos <= line_end(s, pos) <= s.len(),
        comment_end(s, pos) matches Some(end) ==> pos + 2 <= end <= s.len(),
        comment_at(s, pos) matches Some(end) ==> pos + 2 <= end <= s.len(),
        pos <= skip_blank(s, pos) <= s.len(),
        pos <= letters_end(s, pos) <= s.len(),
        pos <= digits_end(s, pos) <= s.len(),
    decreases s.len() - pos,
{
    if pos < s.len() {
        lemma_scan_bounds(s, pos + 1);
        if pos + 2 <= s.len() {
            lemma_scan_bounds(s, pos + 2);
        }
        match comment_at(s, pos) {
            Some(end) => {
                if pos < end <= s.len() {
                    lemma_scan_bounds(s, end);
                }
            },
            None => {},
        }
    }
}

/// The characters of `text`, in a vector.
pub fn chars_of(text: &str) -> (v: Vec<char>)
    ensures
        v@ == text@,
{
    let mut v: Vec<char> = Vec::new();
    for c in it: text.chars()
        invariant
            it.seq() == text@,
            v@ == it.seq().take(it.index() as int),
    {
        v.push(c);
    }
    v
}

/// Whether the character at `pos` is `c`.
pub fn is_char_at(s: &[char], pos: usize, c: char) -> (b: bool)
    ensures
        b == char_at(s@, pos as int, c),
{
    pos < s.len() && s[pos] == c
}

/// The end of the word `w` where it stands at `pos`.
pub fn word_end(s: &[char], pos: usize, w: &str) -> (r: Option<usize>)
    ensures
        match r {
            Some(end) => word_at(s@, pos as int, w@) && end == pos + w@.len(),
            None => !word_at(s@, pos as int, w@),
        },
{
    let n = w.unicode_len();
    if pos > s.len() || n > s.len() - pos {
        return None;
    }
    let mut i: usize = 0;
    while i < n
        invariant
            i <= n,
            n == w@.len(),
            pos + n <= s.len(),
            forall|j: int| 0 <= j < i ==> s@[pos + j] == #[trigger] w@[j],
        decreases n - i,
    {
        if s[pos + i] != w.get_char(i) {
            return None;
        }
        i += 1;
    }
    Some(pos + n)
}

/// Where the line that `pos` is on ends.
fn find_line_end(s: &[char], pos: usize) -> (end: usize)
    requires
        pos <= s.len(),
    ensures
        end == line_end(s@, pos as int),
        pos <= end <= s.len(),
{
    let mut i: usize = pos;
    while i < s.len() && s[i] != '\n'
        invariant
            pos <= i <= s.len(),
            line_end(s@, pos as int) == line_end(s@, i as int),
        decreases s.len() - i,
    {
        i += 1;
    }
    i
}

/// The offset just behind the first `*/` at or behind `pos`.
fn find_comment_end(s: &[char], pos: usize) -> (r: Option<usize>)
    requires
        pos <= s.len(),
    ensures
        match r {
            Some(end) => comment_end(s@, pos as int) == Some(end as int) && pos + 2 <= end
                <= s.len(),
            None => comment_end(s@, pos as int) is None,
        },
{
    let mut i: usize = pos;
    while i < s.len() && i + 1 < s.len()
        invariant
            pos <= i <= s.len(),
            comment_end(s@, pos as int) == comment_end(s@, i as int),
        decreases s.len() - i,
    {
        if s[i] == '*' && s[i + 1] == '/' {
            return Some(i + 2);
        }
        i += 1;
    }
    None
}

/// Where the comment that starts at `pos` ends, if one starts there.
fn find_comment(s: &[char], pos: usize) -> (r: Option<usize>)
    requires
        pos <= s.len(),
    ensures
        match r {
            Some(end) => comment_at(s@, pos as int) == Some(end as int) && pos + 2 <= end
                <= s.len(),
            None => comment_at(s@, pos as int) is None,
        },
{
    if pos < s.len() && pos + 1 < s.len() && s[pos] == '/' {
        if s[pos + 1] == '/' {
            Some(find_line_end(s, pos + 2))
        } else if s[pos + 1] == '*' {
            find_comment_end(s, pos + 2)
        } else {
            None
        }
    } else {
        None
    }
}

/// Where the next token at or behind `pos` starts.
pub fn skip_blanks(s: &[char], pos: usize) -> (next: usize)
    ensures
        next == skip_blank(s@, pos as int),
        pos <= next,
        pos <= s.len() ==> next <= s.len(),
{
    if pos > s.len() {
        return pos;
    }
    let mut i: usize = pos;
    loop
        invariant
            pos <= i <= s.len(),
            skip_blank(s@, pos as int) == skip_blank(s@, i as int),
        ensures
            pos <= i <= s.len(),
            i == skip_blank(s@, pos as int),
        decreases s.len() - i,
    {
        if i < s.len() && (s[i] == ' ' || s[i] == '\t' || s[i] == '\n') {
            i += 1;
        } else {
            match find_comment(s, i) {
                Some(end) => {
                    i = end;
                },
                None => {
                    break ;
                },
            }
        }
    }
    i
}

/// The name at `pos` and where it ends.
pub fn read_name(s: &[char], pos: usize) -> (r: Option<(String, usize)>)
    ensures
        match r {
            Some((name, end)) => name_at(s@, pos as int) == Some((name@, end as int)) && pos < end
                <= s.len(),
            None => name_at(s@, pos as int) is None,
        },
{
    if pos > s.len() {
        return None;
    }
    let mut name = String::new();
    let mut i: usize = pos;
    while i < s.len() && (('a' <= s[i] && s[i] <= 'z') || ('A' <= s[i] && s[i] <= 'Z'))
        invariant
            pos <= i <= s.len(),
            letters_end(s@, pos as int) == letters_end(s@, i as int),
            name@ == s@.subrange(pos as int, i as int),
        decreases s.len() - i,
    {
        name.push(s[i]);
        assert(s@.subrange(pos as int, i + 1) =~= s@.subrange(pos as int, i as int).push(
            s@[i as int],
        ));
        i += 1;
    }
    if i > pos {
        Some((name, i))
    } else {
        None
    }
}

/// The number at `pos` and where it ends.
pub fn read_number(s: &[char], pos: usize) -> (r: Option<(u32, usize)>)
    ensures
        match r {
            Some((value, end)) => number_at(s@, pos as int) == Some((value, end as int)) && pos
                < end <= s.len(),
            None => number_at(s@, pos as int) is None,
        },
{
    if pos > s.len() {
        return None;
    }
    let mut value: u64 = 0;
    let mut fits = true;
    let mut i: usize = pos;
    while i < s.len() && '0' <= s[i] && s[i] <= '9'
        invariant
            pos <= i <= s.len(),
            digits_end(s@, pos as int) == digits_end(s@, i as int),
            fits ==> value == decimal(s@.subrange(pos as int, i as int)) && value <= u32::MAX,
            !fits ==> decimal(s@.subrange(pos as int, i as int)) > u32::MAX,
        decreases s.len() - i,
    {
        let ghost before = s@.subrange(pos as int, i as int);
        let ghost upto = s@.subrange(pos as int, i + 1);
        assert(upto.drop_last() =~= before);
        assert(upto.last() == s@[i as int]);
        if fits {
            let digit = s[i] as u64 - '0' as u64;
            value = value * 10 + digit;
            if value > u32::MAX as u64 {
                fits = false;
            }
        }
        i += 1;
    }
    if i > pos && fits {
        Some((value as u32, i))
    } else {
        None
    }
}

} // verus!
