//! Normalizing raw process-output chunks into clean text lines.
//!
//! A chunk is decoded as UTF-8 (an undecodable chunk is dropped), its
//! trailing carriage returns and line feeds are stripped, and a chunk
//! that is empty after stripping is suppressed as blank-line noise.

use vstd::prelude::*;
use vstd::string::StrSliceExecFns;
use vstd::utf8::char_u32_cast;
use vstd::utf8::decode_utf8;
use vstd::utf8::is_leading_byte_width_1;
use vstd::utf8::pop_first_scalar;
use vstd::utf8::valid_first_scalar;
use vstd::utf8::valid_utf8;

verus! {

/// True when `c` is a line terminator character.
pub open spec fn is_line_end_char(c: char) -> bool {
    c == '\n' || c == '\r'
}

/// `s` with every trailing carriage return and line feed removed.
pub open spec fn trim_line_ends(s: Seq<char>) -> Seq<char>
    decreases s.len(),
{
    if s.len() > 0 && is_line_end_char(s.last()) {
        trim_line_ends(s.drop_last())
    } else {
        s
    }
}

/// True when every byte of the chunk is a line feed or carriage return;
/// an empty chunk qualifies.
pub open spec fn line_end_bytes_only(bytes: Seq<u8>) -> bool {
    forall|i: int| 0 <= i < bytes.len() ==> bytes[i] == 10u8 || bytes[i] == 13u8
}

/// What the sanitizer owes for one raw chunk: no line for invalid UTF-8,
/// no line when nothing but line terminators were present, otherwise the
/// decoded text with its trailing line terminators stripped.
pub open spec fn sanitized_line(bytes: Seq<u8>) -> Option<Seq<char>> {
    if valid_utf8(bytes) {
        let cleaned = trim_line_ends(decode_utf8(bytes));
        if cleaned.len() == 0 {
            Option::None
        } else {
            Option::Some(cleaned)
        }
    } else {
        Option::None
    }
}

/// Relies on `String::from_utf8`: it succeeds exactly on byte sequences
/// that are valid UTF-8 and then returns the string whose characters are
/// the decoded Unicode scalar values of those bytes.
#[verifier::external_body]
fn utf8_to_string(bytes: Vec<u8>) -> (r: Option<String>)
    ensures
        r is Some <==> valid_utf8(bytes@),
        r is Some ==> r->0@ == decode_utf8(bytes@),
{
    String::from_utf8(bytes).ok()
}

/// A chunk of nothing but line-terminator bytes is valid UTF-8 and
/// decodes to the corresponding line-terminator characters.
proof fn lemma_line_end_bytes_decode(bytes: Seq<u8>)
    requires
        line_end_bytes_only(bytes),
    ensures
        valid_utf8(bytes),
        decode_utf8(bytes).len() == bytes.len(),
        forall|i: int| 0 <= i < bytes.len() ==> is_line_end_char(#[trigger] decode_utf8(bytes)[i]),
    decreases bytes.len(),
{
    if bytes.len() > 0 {
        let b = bytes[0];
        assert(b == 10u8 || b == 13u8);
        assert(10u8 & 0x7f == 10u8) by (bit_vector);
        assert(13u8 & 0x7f == 13u8) by (bit_vector);
        assert(is_leading_byte_width_1(b));
        assert(valid_first_scalar(bytes));
        let rest = pop_first_scalar(bytes);
        assert(rest =~= bytes.drop_first());
        assert(line_end_bytes_only(rest));
        lemma_line_end_bytes_decode(rest);
        assert('\n' as u32 == 10u32);
        assert('\r' as u32 == 13u32);
        char_u32_cast('\n', 10u32);
        char_u32_cast('\r', 13u32);
        let first = decode_utf8(bytes)[0];
        assert(is_line_end_char(first));
        assert forall|i: int| 0 <= i < bytes.len() implies is_line_end_char(
            #[trigger] decode_utf8(bytes)[i],
        ) by {
            if i > 0 {
                assert(decode_utf8(bytes)[i] == decode_utf8(rest)[i - 1]);
            }
        }
    }
}

/// Stripping a sequence of nothing but line terminators leaves nothing.
proof fn lemma_trim_line_ends_all(s: Seq<char>)
    requires
        forall|i: int| 0 <= i < s.len() ==> is_line_end_char(#[trigger] s[i]),
    ensures
        trim_line_ends(s).len() == 0,
    decreases s.len(),
{
    if s.len() > 0 {
        assert(is_line_end_char(s.last()));
        assert(forall|i: int|
            0 <= i < s.drop_last().len() ==> is_line_end_char(#[trigger] s.drop_last()[i]));
        lemma_trim_line_ends_all(s.drop_last());
    }
}

/// Number of characters of `text` left once trailing line terminators go.
fn trimmed_len(text: &str) -> (end: usize)
    ensures
        end <= text@.len(),
        trim_line_ends(text@) == text@.take(end as int),
{
    let ghost t = text@;
    let n = text.unicode_len();
    let mut end = n;
    proof {
        assert(t.take(n as int) =~= t);
    }
    loop
        invariant
            end <= n,
            n == t.len(),
            text@ == t,
            trim_line_ends(t) == trim_line_ends(t.take(end as int)),
        decreases end,
    {
        if end == 0 {
            proof {
                assert(t.take(0).len() == 0);
            }
            return 0;
        }
        let c = text.get_char(end - 1);
        proof {
            assert(t.take(end as int).last() == t[end as int - 1]);
        }
        if c != '\n' && c != '\r' {
            proof {
                assert(!is_line_end_char(t.take(end as int).last()));
                assert(trim_line_ends(t.take(end as int)) == t.take(end as int));
            }
            return end;
        }
        proof {
            assert(t.take(end as int).drop_last() =~= t.take(end as int - 1));
        }
        end = end - 1;
    }
}

/// Decodes one raw chunk of process output and strips its trailing line
/// terminators. Yields nothing for a chunk that is not valid UTF-8 or
/// that holds no text beyond line terminators; otherwise yields the
/// stripped, non-empty line.
pub fn sanitize_line(bytes: Vec<u8>) -> (r: Option<String>)
    ensures
        match r {
            Option::None => sanitized_line(bytes@) is None,
            Option::Some(line) => sanitized_line(bytes@) == Option::Some(line@),
        },
        line_end_bytes_only(bytes@) ==> r is None,
{
    let ghost raw = bytes@;
    proof {
        if line_end_bytes_only(raw) {
            lemma_line_end_bytes_decode(raw);
            lemma_trim_line_ends_all(decode_utf8(raw));
        }
    }
    match utf8_to_string(bytes) {
        Option::None => Option::None,
        Option::Some(text) => {
            let ghost t = text@;
            let end = trimmed_len(text.as_str());
            if end == 0 {
                proof {
                    assert(trim_line_ends(t).len() == 0);
                }
                Option::None
            } else {
                let cleaned = text.as_str().substring_char(0, end);
                let line = cleaned.to_owned();
                proof {
                    assert(line@ =~= trim_line_ends(t));
                }
                Option::Some(line)
            }
        },
    }
}

} // verus!
