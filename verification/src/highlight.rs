//! Marking the places where a search term occurs in a line of text.

use vstd::prelude::*;
use vstd::string::*;
use vstd::utf8::*;

verus! {

/// The characters that mean something in a regular expression.
pub open spec fn is_meta(c: char) -> bool {
    c == '\\' || c == '.' || c == '+' || c == '*' || c == '?' || c == '(' || c == ')' || c == '|'
        || c == '[' || c == ']' || c == '{' || c == '}' || c == '^' || c == '$' || c == '#'
        || c == '&' || c == '-' || c == '~'
}

/// `s` with a backslash put before each character that means something in a
/// regular expression.
pub open spec fn quoted(s: Seq<char>) -> Seq<char>
    decreases s.len(),
{
    if s.len() == 0 {
        Seq::empty()
    } else if is_meta(s.last()) {
        quoted(s.drop_last()).push('\\').push(s.last())
    } else {
        quoted(s.drop_last()).push(s.last())
    }
}

/// Trusted: `regex::escape` walks the characters of `pattern` and copies each
/// one, with a backslash before it when it is one of the eighteen
/// meta characters.
pub assume_specification[ regex::escape ](pattern: &str) -> (out: String)
    ensures
        out@ == quoted(pattern@),
;

/// The matches of the regular expression `pattern` in `text`, one after the
/// other, each as the byte offsets of its start and its end in the UTF-8
/// encoding of `text`; `None` when `pattern` does not compile.
pub uninterp spec fn regex_matches(pattern: Seq<char>, text: Seq<char>) -> Option<
    Seq<(usize, usize)>,
>;

/// Trusted: compiles `pattern` with `regex::Regex::new` and walks
/// `Regex::find_iter` over `text`. Claimed of them: that what they find
/// depends on the pattern and the text alone. Nothing is claimed of the
/// offsets themselves.
#[verifier::external_body]
fn find_spans(pattern: &str, text: &str) -> (found: Option<Vec<(usize, usize)>>)
    ensures
        match found {
            Some(spans) => regex_matches(pattern@, text@) == Some(spans@),
            None => regex_matches(pattern@, text@) is None,
        },
{
    match regex::Regex::new(pattern) {
        Ok(re) => Some(re.find_iter(text).map(|m| (m.start(), m.end())).collect()),
        Err(_) => None,
    }
}

/// The text that the bytes `bytes[from..to]` encode.
pub open spec fn slice_text(bytes: Seq<u8>, from: int, to: int) -> Seq<char> {
    decode_utf8(bytes.subrange(from, to))
}

/// Whether the span from `a` to `b` can be cut out of `bytes` behind `pos`:
/// it lies behind `pos`, inside the text, and starts and ends between two
/// characters.
pub open spec fn span_fits(bytes: Seq<u8>, pos: int, a: int, b: int) -> bool {
    &&& pos <= a <= b <= bytes.len()
    &&& is_char_boundary(bytes.skip(pos), a - pos)
    &&& is_char_boundary(bytes.skip(a), b - a)
}

/// The text of `bytes` from `pos` on, with each span of `spans` that fits
/// wrapped in `<mark>` and `</mark>`. A span that does not fit behind the one
/// before it is passed over.
pub open spec fn marked_from(bytes: Seq<u8>, pos: int, spans: Seq<(usize, usize)>) -> Seq<char>
    decreases spans.len(),
{
    if spans.len() == 0 {
        slice_text(bytes, pos, bytes.len() as int)
    } else {
        let a = spans[0].0 as int;
        let b = spans[0].1 as int;
        if span_fits(bytes, pos, a, b) {
            slice_text(bytes, pos, a) + "<mark>"@ + slice_text(bytes, a, b) + "</mark>"@
                + marked_from(bytes, b, spans.drop_first())
        } else {
            marked_from(bytes, pos, spans.drop_first())
        }
    }
}

/// What `marked_from` gives with the marks left out: the same pieces of the
/// text in the same order, with nothing put around them.
pub open spec fn unmarked_from(bytes: Seq<u8>, pos: int, spans: Seq<(usize, usize)>) -> Seq<char>
    decreases spans.len(),
{
    if spans.len() == 0 {
        slice_text(bytes, pos, bytes.len() as int)
    } else {
        let a = spans[0].0 as int;
        let b = spans[0].1 as int;
        if span_fits(bytes, pos, a, b) {
            slice_text(bytes, pos, a) + slice_text(bytes, a, b) + unmarked_from(
                bytes,
                b,
                spans.drop_first(),
            )
        } else {
            unmarked_from(bytes, pos, spans.drop_first())
        }
    }
}

/// Marking adds marks and nothing else: the pieces between and inside the
/// marks, put together again, are the text from `pos` on. No character is
/// changed, dropped, doubled or moved, whatever the spans are.
pub proof fn lemma_marking_keeps_the_text(bytes: Seq<u8>, pos: int, spans: Seq<(usize, usize)>)
    requires
        0 <= pos <= bytes.len(),
        valid_utf8(bytes.skip(pos)),
    ensures
        unmarked_from(bytes, pos, spans) == slice_text(bytes, pos, bytes.len() as int),
    decreases spans.len(),
{
    let len = bytes.len() as int;
    if spans.len() > 0 {
        let a = spans[0].0 as int;
        let b = spans[0].1 as int;
        if span_fits(bytes, pos, a, b) {
            let from_pos = bytes.skip(pos);
            let from_a = bytes.skip(a);
            assert(from_pos.subrange(0, a - pos) == bytes.subrange(pos, a));
            assert(from_pos.subrange(a - pos, from_pos.len() as int) == from_a);
            valid_utf8_split(from_pos, a - pos);
            decode_utf8_split(from_pos, a - pos);
            assert(from_a.subrange(0, b - a) == bytes.subrange(a, b));
            assert(from_a.subrange(b - a, from_a.len() as int) == bytes.skip(b));
            valid_utf8_split(from_a, b - a);
            decode_utf8_split(from_a, b - a);
            lemma_marking_keeps_the_text(bytes, b, spans.drop_first());
            assert(bytes.subrange(pos, len) == from_pos);
            assert(bytes.subrange(b, len) == bytes.skip(b));
            assert(unmarked_from(bytes, pos, spans) =~= decode_utf8(from_pos));
        } else {
            lemma_marking_keeps_the_text(bytes, pos, spans.drop_first());
        }
    }
}

/// A line with its marks taken away is the line: for any text and any
/// spans, the pieces of `marked(text, spans)` without the marks are `text`.
pub proof fn lemma_unmarked_is_the_text(text: Seq<char>, spans: Seq<(usize, usize)>)
    ensures
        unmarked_from(encode_utf8(text), 0, spans) == text,
{
    let bytes = encode_utf8(text);
    encode_utf8_valid_utf8(text);
    encode_utf8_decode_utf8(text);
    assert(bytes.skip(0) == bytes);
    assert(bytes.subrange(0, bytes.len() as int) == bytes);
    lemma_marking_keeps_the_text(bytes, 0, spans);
}

/// `text` with the spans `spans` marked.
pub open spec fn marked(text: Seq<char>, spans: Seq<(usize, usize)>) -> Seq<char> {
    marked_from(encode_utf8(text), 0, spans)
}

/// The regular expression that finds `needle` as it is written, in any case.
pub open spec fn needle_pattern(needle: Seq<char>) -> Seq<char> {
    "(?i)"@ + quoted(needle)
}

/// The spans of `text` to mark for `needle`: the matches of its pattern;
/// where that does not compile, those of the empty pattern; else none.
pub open spec fn needle_spans(text: Seq<char>, needle: Seq<char>) -> Seq<(usize, usize)> {
    match regex_matches(needle_pattern(needle), text) {
        Some(spans) => spans,
        None => match regex_matches(Seq::empty(), text) {
            Some(spans) => spans,
            None => Seq::empty(),
        },
    }
}

/// `text` with each occurrence of `needle`, in any case, marked.
pub open spec fn highlighted(text: Seq<char>, needle: Seq<char>) -> Seq<char> {
    marked(text, needle_spans(text, needle))
}

/// Wraps each span of `spans` in `text` in `<mark>` and `</mark>`.
///
/// The spans are byte offsets into `text`. One that lies before the end of
/// the span before it, reaches past the end of the text or cuts a character
/// in two is passed over.
pub fn mark_matches(text: &str, spans: &Vec<(usize, usize)>) -> (out: String)
    ensures
        out@ == marked(text@, spans@),
{
    let ghost bytes = encode_utf8(text@);
    let mut out = String::new();
    let mut rest: &str = text;
    let mut pos: usize = 0;
    let mut i: usize = 0;
    assert(bytes.skip(0) == bytes);
    assert(spans@.skip(0) == spans@);
    while i < spans.len()
        invariant
            i <= spans.len(),
            bytes == encode_utf8(text@),
            pos <= bytes.len(),
            rest.spec_bytes() == bytes.skip(pos as int),
            out@ + marked_from(bytes, pos as int, spans@.skip(i as int)) == marked(text@, spans@),
        decreases spans.len() - i,
    {
        let a = spans[i].0;
        let b = spans[i].1;
        proof {
            assert(spans@.skip(i as int)[0] == spans@[i as int]);
            assert(spans@.skip(i as int).drop_first() == spans@.skip(i + 1));
        }
        if pos <= a && a <= b && b - pos <= rest.as_bytes().len() && rest.is_char_boundary(a - pos) {
            let (head, tail) = rest.split_at(a - pos);
            assert(tail.spec_bytes() == bytes.skip(a as int));
            if tail.is_char_boundary(b - a) {
                let (hit, after) = tail.split_at(b - a);
                proof {
                    assert(bytes.skip(pos as int).subrange(0, a - pos) == bytes.subrange(
                        pos as int,
                        a as int,
                    ));
                    assert(bytes.skip(a as int).subrange(0, b - a) == bytes.subrange(
                        a as int,
                        b as int,
                    ));
                    assert(after.spec_bytes() == bytes.skip(b as int));
                    assert(head.spec_bytes() == bytes.subrange(pos as int, a as int));
                    assert(hit.spec_bytes() == bytes.subrange(a as int, b as int));
                    encode_utf8_decode_utf8(head@);
                    encode_utf8_decode_utf8(hit@);
                }
                let ghost before = out@;
                out.append(head);
                out.append("<mark>");
                out.append(hit);
                out.append("</mark>");
                assert(out@ + marked_from(bytes, b as int, spans@.skip(i + 1)) =~= before
                    + marked_from(bytes, pos as int, spans@.skip(i as int)));
                rest = after;
                pos = b;
            }
        }
        i += 1;
    }
    proof {
        assert(bytes.subrange(pos as int, bytes.len() as int) == bytes.skip(pos as int));
        encode_utf8_decode_utf8(rest@);
    }
    out.append(rest);
    out
}

/// Marks each occurrence of `needle` in `text`, whatever its case.
///
/// The occurrences are found by a regular expression made of `needle` with
/// its meta characters quoted. Should that expression not compile, the empty
/// expression takes its place; should that not compile either, nothing is
/// marked.
pub fn highlight(text: &str, needle: &str) -> (out: String)
    ensures
        out@ == highlighted(text@, needle@),
{
    let mut pattern = String::new();
    pattern.append("(?i)");
    let literal = regex::escape(needle);
    pattern.append(literal.as_str());
    let spans = match find_spans(pattern.as_str(), text) {
        Some(spans) => spans,
        None => {
            let empty = String::new();
            match find_spans(empty.as_str(), text) {
                Some(spans) => spans,
                None => Vec::new(),
            }
        },
    };
    mark_matches(text, &spans)
}

} // verus!
