//! Text as sequences of characters: lines, blanks and trimming.

use vstd::prelude::*;
use vstd::std_specs::iter::IteratorSpec;
use vstd::string::StrSliceExecFns;
use vstd::utf8::{decode_utf8, encode_utf8, is_char_boundary, valid_utf8};

verus! {

/// Whether `c` is white space: a character with the Unicode property
/// `White_Space`.
pub open spec fn is_space(c: char) -> bool {
    let code = c as u32;
    ||| 0x09 <= code <= 0x0D
    ||| code == 0x20
    ||| code == 0x85
    ||| code == 0xA0
    ||| code == 0x1680
    ||| 0x2000 <= code <= 0x200A
    ||| code == 0x2028
    ||| code == 0x2029
    ||| code == 0x202F
    ||| code == 0x205F
    ||| code == 0x3000
}

/// Tests [`is_space`].
pub fn is_space_char(c: char) -> (r: bool)
    ensures
        r == is_space(c),
{
    let code = c as u32;
    (0x09 <= code && code <= 0x0D) || code == 0x20 || code == 0x85 || code == 0xA0 || code
        == 0x1680 || (0x2000 <= code && code <= 0x200A) || code == 0x2028 || code == 0x2029 || code
        == 0x202F || code == 0x205F || code == 0x3000
}

/// Whether `s` holds white space only.
pub open spec fn is_blank(s: Seq<char>) -> bool {
    forall|i: int| 0 <= i < s.len() ==> is_space(#[trigger] s[i])
}

/// How many white space characters `s` begins with.
pub open spec fn leading_spaces(s: Seq<char>) -> int
    decreases s.len(),
{
    if s.len() == 0 || !is_space(s[0]) {
        0
    } else {
        1 + leading_spaces(s.drop_first())
    }
}

/// How many white space characters `s` ends with.
pub open spec fn trailing_spaces(s: Seq<char>) -> int
    decreases s.len(),
{
    if s.len() == 0 || !is_space(s.last()) {
        0
    } else {
        1 + trailing_spaces(s.drop_last())
    }
}

/// `s` without the white space at its two ends.
pub open spec fn trimmed(s: Seq<char>) -> Seq<char> {
    if leading_spaces(s) == s.len() {
        Seq::empty()
    } else {
        s.subrange(leading_spaces(s), s.len() - trailing_spaces(s))
    }
}

/// Whether `s` begins with a byte order mark.
pub open spec fn has_mark(s: Seq<char>) -> bool {
    s.len() > 0 && s[0] == '\u{feff}'
}

/// `s` without a byte order mark at its start.
pub open spec fn without_mark(s: Seq<char>) -> Seq<char> {
    if has_mark(s) {
        s.drop_first()
    } else {
        s
    }
}

/// Where the first line of `s` ends: at its first line feed, or at its end
/// where it has none.
pub open spec fn line_end(s: Seq<char>) -> int
    decreases s.len(),
{
    if s.len() == 0 || s[0] == '\n' {
        0
    } else {
        1 + line_end(s.drop_first())
    }
}

/// `line` without a carriage return at its end.
pub open spec fn without_return(line: Seq<char>) -> Seq<char> {
    if line.len() > 0 && line.last() == '\r' {
        line.drop_last()
    } else {
        line
    }
}

/// The lines of `s`. A line ends at a line feed; neither the line feed nor
/// a carriage return right in front of it belongs to the line. What follows
/// the last line feed is a line if it is not empty, carriage return and
/// all.
pub open spec fn lines(s: Seq<char>) -> Seq<Seq<char>>
    decreases s.len(),
    via lines_decreases
{
    if s.len() == 0 {
        Seq::empty()
    } else if line_end(s) == s.len() {
        seq![s]
    } else {
        seq![without_return(s.take(line_end(s)))] + lines(s.skip(line_end(s) + 1))
    }
}

#[via_fn]
proof fn lines_decreases(s: Seq<char>) {
    lemma_line_end_bounds(s);
}

/// The first line of `s` ends inside `s` or at its end, and no line feed
/// stands before that.
pub proof fn lemma_line_end_bounds(s: Seq<char>)
    ensures
        0 <= line_end(s) <= s.len(),
        forall|i: int| 0 <= i < line_end(s) ==> s[i] != '\n',
        line_end(s) < s.len() ==> s[line_end(s)] == '\n',
    decreases s.len(),
{
    if s.len() == 0 || s[0] == '\n' {
    } else {
        lemma_line_end_bounds(s.drop_first());
        assert forall|i: int| 0 <= i < line_end(s) implies s[i] != '\n' by {
            if i > 0 {
                assert(s[i] == s.drop_first()[i - 1]);
            }
        }
    }
}

/// The first line of `s` ends at `n` if no line feed stands before `n` and
/// one stands at `n`, or `s` ends there.
pub proof fn lemma_line_end(s: Seq<char>, n: int)
    requires
        0 <= n <= s.len(),
        forall|i: int| 0 <= i < n ==> s[i] != '\n',
        n == s.len() || s[n] == '\n',
    ensures
        line_end(s) == n,
    decreases n,
{
    if n > 0 {
        lemma_line_end(s.drop_first(), n - 1);
    }
}

/// Whether the bytes from `start` up to `end` are a piece of text with the
/// bytes `bytes`: both offsets lie inside the text, in order, and between
/// characters.
pub open spec fn is_piece(bytes: Seq<u8>, start: int, end: int) -> bool {
    &&& 0 <= start <= end <= bytes.len()
    &&& is_char_boundary(bytes, start)
    &&& is_char_boundary(bytes, end)
}

/// The characters that the bytes from `start` up to `end` of `text` spell.
pub open spec fn piece(text: Seq<char>, start: int, end: int) -> Seq<char> {
    decode_utf8(encode_utf8(text).subrange(start, end))
}

/// A character boundary of a text is one of each of its pieces that it
/// lies in.
pub proof fn lemma_boundary_in_prefix(bytes: Seq<u8>, start: int, end: int)
    requires
        valid_utf8(bytes),
        is_piece(bytes, start, end),
    ensures
        valid_utf8(bytes.subrange(0, end)),
        is_char_boundary(bytes.subrange(0, end), start),
{
    vstd::utf8::valid_utf8_split(bytes, end);
    let head = bytes.subrange(0, end);
    if start == end {
        vstd::utf8::is_char_boundary_start_end_of_seq(head);
    } else {
        vstd::utf8::is_char_boundary_iff_not_is_continuation_byte(bytes, start);
        vstd::utf8::is_char_boundary_iff_not_is_continuation_byte(head, start);
    }
}

/// `String::push`: puts `c` behind `text`.
#[verifier::external_body]
fn push_char(text: &mut String, c: char)
    ensures
        final(text)@ == old(text)@.push(c),
{
    text.push(c);
}

/// The characters of `s`, in order.
pub fn chars_of(s: &str) -> (chars: Vec<char>)
    ensures
        chars@ == s@,
{
    let mut chars: Vec<char> = Vec::new();
    let mut it = s.chars();
    assert(s@.skip(0) =~= s@);
    loop
        invariant_except_break
            chars@.len() <= s@.len(),
            chars@ == s@.take(chars@.len() as int),
            it.remaining() == s@.skip(chars@.len() as int),
        ensures
            chars@ == s@,
        decreases s@.len() - chars@.len(),
    {
        let ghost at = chars@.len() as int;
        match it.next() {
            Some(c) => {
                assert(c == s@[at]);
                assert(it.remaining() =~= s@.skip(at + 1));
                chars.push(c);
                assert(chars@ =~= s@.take(at + 1));
            },
            None => {
                assert(s@.take(at) =~= s@);
                break ;
            },
        }
    }
    chars
}

/// The text that the characters from `start` up to `end` spell.
pub fn text_from(chars: &Vec<char>, start: usize, end: usize) -> (text: String)
    requires
        start <= end <= chars.len(),
    ensures
        text@ == chars@.subrange(start as int, end as int),
{
    let mut text = String::new();
    let mut i: usize = start;
    assert(text@ =~= chars@.subrange(start as int, start as int));
    while i < end
        invariant
            start <= i <= end <= chars.len(),
            text@ == chars@.subrange(start as int, i as int),
        decreases end - i,
    {
        push_char(&mut text, chars[i]);
        assert(text@ =~= chars@.subrange(start as int, i + 1));
        i = i + 1;
    }
    text
}

/// The text of an optional string.
pub open spec fn text_of(s: Option<String>) -> Option<Seq<char>> {
    match s {
        Some(s) => Some(s@),
        None => None,
    }
}

/// The texts of a row of strings.
pub open spec fn texts(rows: Seq<String>) -> Seq<Seq<char>> {
    Seq::new(rows.len(), |i: int| rows[i]@)
}

/// `s` begins with `k` white space characters if its first `k` are white
/// space and the next is not, or `s` ends there.
pub proof fn lemma_leading_spaces(s: Seq<char>, k: int)
    requires
        0 <= k <= s.len(),
        forall|j: int| 0 <= j < k ==> is_space(s[j]),
        k == s.len() || !is_space(s[k]),
    ensures
        leading_spaces(s) == k,
    decreases k,
{
    if k > 0 {
        lemma_leading_spaces(s.drop_first(), k - 1);
    }
}

/// `s` ends with `s.len() - e` white space characters if all from `e` on
/// are white space and the one before is not, or `e` is 0.
pub proof fn lemma_trailing_spaces(s: Seq<char>, e: int)
    requires
        0 <= e <= s.len(),
        forall|j: int| e <= j < s.len() ==> is_space(s[j]),
        e == 0 || !is_space(s[e - 1]),
    ensures
        trailing_spaces(s) == s.len() - e,
    decreases s.len() - e,
{
    if e < s.len() {
        lemma_trailing_spaces(s.drop_last(), e);
    }
}

/// Tests [`has_mark`] on `s`.
pub fn starts_with_mark(s: &str) -> (r: bool)
    ensures
        r == has_mark(s@),
{
    let mut it = s.chars();
    match it.next() {
        Some(c) => c == '\u{feff}',
        None => false,
    }
}

/// `s` without a byte order mark at its start.
pub fn strip_mark(s: &str) -> (r: &str)
    ensures
        r@ == without_mark(s@),
{
    if starts_with_mark(s) {
        let len = s.unicode_len();
        s.substring_char(1, len)
    } else {
        s
    }
}

/// Tests [`is_blank`] on `s`.
pub fn is_blank_text(s: &str) -> (r: bool)
    ensures
        r == is_blank(s@),
{
    let mut it = s.chars();
    let ghost mut at: int = 0;
    loop
        invariant
            0 <= at <= s@.len(),
            it.remaining() == s@.skip(at),
            forall|j: int| 0 <= j < at ==> is_space(#[trigger] s@[j]),
        decreases s@.len() - at,
    {
        match it.next() {
            Some(c) => {
                if !is_space_char(c) {
                    return false;
                }
                proof {
                    at = at + 1;
                }
            },
            None => {
                return true;
            },
        }
    }
}

/// `s` without the white space at its two ends.
pub fn trim(s: &str) -> (r: String)
    ensures
        r@ == trimmed(s@),
{
    let len = s.unicode_len();
    let mut it = s.chars();
    let mut at: usize = 0;
    let mut lead: usize = 0;
    let mut end: usize = 0;
    loop
        invariant_except_break
            at <= len == s@.len(),
            it.remaining() == s@.skip(at as int),
            lead <= at,
            end <= at,
            forall|j: int| 0 <= j < lead ==> is_space(#[trigger] s@[j]),
            forall|j: int| end <= j < at ==> is_space(#[trigger] s@[j]),
            end == 0 ==> lead == at,
            end > 0 ==> lead < end && !is_space(s@[lead as int]) && !is_space(s@[end - 1]),
        ensures
            lead <= len == s@.len(),
            lead == leading_spaces(s@),
            lead < len ==> lead < end <= len && end == len - trailing_spaces(s@),
        decreases len - at,
    {
        match it.next() {
            Some(c) => {
                if is_space_char(c) {
                    if end == 0 {
                        lead = at + 1;
                    }
                } else {
                    end = at + 1;
                }
                at = at + 1;
            },
            None => {
                proof {
                    lemma_leading_spaces(s@, lead as int);
                    lemma_trailing_spaces(s@, end as int);
                }
                break ;
            },
        }
    }
    if lead == len {
        String::new()
    } else {
        s.substring_char(lead, end).to_owned()
    }
}

/// Splits `content` into its lines.
pub fn split_lines(content: &str) -> (rows: Vec<String>)
    ensures
        texts(rows@) == lines(content@),
{
    let mut rows: Vec<String> = Vec::new();
    let mut current = String::new();
    let mut pending = false;
    let mut begun = false;
    let mut it = content.chars();
    let ghost mut start: int = 0;
    let ghost mut at: int = 0;
    assert(content@.skip(0) =~= content@);
    loop
        invariant_except_break
            0 <= start <= at <= content@.len(),
            begun == (start < at),
            it.remaining() == content@.skip(at),
            current@ + (if pending {
                seq!['\r']
            } else {
                Seq::empty()
            }) == content@.subrange(start, at),
            !pending ==> current@.len() == 0 || current@.last() != '\r',
            forall|j: int| start <= j < at ==> content@[j] != '\n',
            lines(content@) == texts(rows@) + lines(content@.skip(start)),
        ensures
            texts(rows@) == lines(content@),
        decreases content@.len() - at,
    {
        let ghost line = content@.subrange(start, at);
        let ghost rest = content@.skip(start);
        match it.next() {
            Some(c) => {
                if c == '\n' {
                    proof {
                        lemma_line_end(rest, at - start);
                        assert(rest.take(at - start) =~= line);
                        assert(rest.skip(at - start + 1) =~= content@.skip(at + 1));
                        assert(without_return(line) == current@);
                    }
                    rows.push(current);
                    current = String::new();
                    pending = false;
                    begun = false;
                    proof {
                        start = at + 1;
                    }
                } else {
                    begun = true;
                    if pending {
                        push_char(&mut current, '\r');
                    }
                    if c == '\r' {
                        pending = true;
                    } else {
                        pending = false;
                        push_char(&mut current, c);
                    }
                }
                proof {
                    at = at + 1;
                }
            },
            None => {
                if pending {
                    push_char(&mut current, '\r');
                }
                assert(current@ =~= rest);
                if begun {
                    proof {
                        lemma_line_end(rest, rest.len() as int);
                    }
                    rows.push(current);
                }
                break ;
            },
        }
    }
    rows
}

} // verus!
