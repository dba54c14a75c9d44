//! Text helpers: comparison and trimming, stated over sequences of characters.
use vstd::prelude::*;
use vstd::utf8::decode_utf8;
use vstd::utf8::decode_utf8_split;
use vstd::utf8::encode_utf8;
use vstd::utf8::encode_utf8_decode_utf8;
use vstd::utf8::is_ascii_chars_encode_utf8;
use vstd::utf8::is_char_boundary_iff_not_is_continuation_byte;
use vstd::utf8::is_continuation_byte;
use vstd::utf8::utf8_byte_ranges_bitwise;
use vstd::utf8::valid_utf8;
use vstd::utf8::valid_utf8_split;
use vstd::string::*;

verus! {

/// Whether two strings hold the same characters.
pub fn same_text(a: &str, b: &str) -> (same: bool)
    ensures
        same == (a@ == b@),
{
    let x: &[u8] = a.as_bytes();
    let y: &[u8] = b.as_bytes();
    proof {
        encode_utf8_decode_utf8(a@);
        encode_utf8_decode_utf8(b@);
    }
    if x.len() != y.len() {
        return false;
    }
    let mut i: usize = 0;
    while i < x.len()
        invariant
            x@.len() == y@.len(),
            i <= x@.len(),
            forall|j: int| 0 <= j < i ==> x@[j] == y@[j],
            x@ == encode_utf8(a@),
            y@ == encode_utf8(b@),
        decreases x@.len() - i,
    {
        if x[i] != y[i] {
            return false;
        }
        i += 1;
    }
    assert(x@ =~= y@);
    true
}

/// `String::push` appends one character.
pub assume_specification[ String::push ](s: &mut String, ch: char)
    ensures
        final(s)@ == old(s)@.push(ch),
;

/// `String::from_utf8_lossy` on bytes that are not UTF-8 and end in no ASCII byte.
pub uninterp spec fn lossy_text(bytes: Seq<u8>) -> Seq<char>;

/// The text of bytes, with replacement characters for what is not UTF-8. An ASCII byte is a
/// character of its own, whatever stands before it.
pub open spec fn decoded_text(bytes: Seq<u8>) -> Seq<char>
    decreases bytes.len(),
{
    if bytes.len() > 0 && bytes.last() < 128 {
        decoded_text(bytes.drop_last()).push(bytes.last() as char)
    } else if valid_utf8(bytes) {
        decode_utf8(bytes)
    } else {
        lossy_text(bytes)
    }
}

/// `String::from_utf8_lossy`: what is UTF-8 is decoded, and each invalid sequence is replaced. An
/// ASCII byte is UTF-8 by itself, so that those at the end are the last characters. How the other
/// bytes are grouped into replacement characters is left to the name.
#[verifier::external_body]
pub(crate) fn decode_lossy(bytes: &[u8]) -> (text: String)
    ensures
        text@ == decoded_text(bytes@),
        bytes@.len() > 0 && bytes@.last() >= 128 && !valid_utf8(bytes@) ==> text@ == lossy_text(
            bytes@,
        ),
{
    String::from_utf8_lossy(bytes).into_owned()
}

/// Bytes that are UTF-8 are decoded.
pub proof fn lemma_decoded_utf8(bytes: Seq<u8>)
    requires
        valid_utf8(bytes),
    ensures
        decoded_text(bytes) == decode_utf8(bytes),
    decreases bytes.len(),
{
    if bytes.len() > 0 && bytes.last() < 128 {
        let n = bytes.len() - 1;
        let end = bytes.subrange(n, bytes.len() as int);
        let c = bytes.last() as char;
        assert(!is_continuation_byte(bytes[n])) by {
            utf8_byte_ranges_bitwise(bytes[n]);
        }
        is_char_boundary_iff_not_is_continuation_byte(bytes, n);
        valid_utf8_split(bytes, n);
        decode_utf8_split(bytes, n);
        assert(bytes.drop_last() =~= bytes.subrange(0, n));
        is_ascii_chars_encode_utf8(seq![c]);
        assert(end =~= encode_utf8(seq![c]));
        encode_utf8_decode_utf8(seq![c]);
        lemma_decoded_utf8(bytes.drop_last());
        assert(decode_utf8(bytes) =~= decoded_text(bytes.drop_last()).push(c));
    }
}

/// `text` without the characters of `set` at its end.
pub open spec fn trim_end(text: Seq<char>, set: Set<char>) -> Seq<char>
    decreases text.len(),
{
    if text.len() > 0 && set.contains(text.last()) {
        trim_end(text.drop_last(), set)
    } else {
        text
    }
}

/// `text` without the characters of `set` at its start.
pub open spec fn trim_start(text: Seq<char>, set: Set<char>) -> Seq<char>
    decreases text.len(),
{
    if text.len() > 0 && set.contains(text.first()) {
        trim_start(text.drop_first(), set)
    } else {
        text
    }
}

/// The characters with the Unicode property `White_Space`.
pub open spec fn is_white_space(c: char) -> bool {
    ||| '\u{9}' <= c <= '\u{d}'
    ||| c == '\u{20}'
    ||| c == '\u{85}'
    ||| c == '\u{a0}'
    ||| c == '\u{1680}'
    ||| '\u{2000}' <= c <= '\u{200a}'
    ||| c == '\u{2028}'
    ||| c == '\u{2029}'
    ||| c == '\u{202f}'
    ||| c == '\u{205f}'
    ||| c == '\u{3000}'
}

/// The set of white space characters.
pub open spec fn white_space() -> Set<char> {
    Set::new(|c: char| is_white_space(c))
}

/// `text` without white space at either end.
pub open spec fn trim(text: Seq<char>) -> Seq<char> {
    trim_end(trim_start(text, white_space()), white_space())
}

/// Trimming keeps a prefix, and what it keeps ends in no character of the set.
pub proof fn lemma_trim_end(text: Seq<char>, set: Set<char>)
    ensures
        trim_end(text, set).len() <= text.len(),
        trim_end(text, set) == text.take(trim_end(text, set).len() as int),
        trim_end(text, set).len() > 0 ==> !set.contains(trim_end(text, set).last()),
        forall|i: int|
            trim_end(text, set).len() <= i < text.len() ==> set.contains(#[trigger] text[i]),
    decreases text.len(),
{
    if text.len() > 0 && set.contains(text.last()) {
        lemma_trim_end(text.drop_last(), set);
        assert(text.drop_last().take(trim_end(text, set).len() as int) =~= text.take(
            trim_end(text, set).len() as int,
        ));
        assert forall|i: int| trim_end(text, set).len() <= i < text.len() implies set.contains(
            #[trigger] text[i],
        ) by {
            if i < text.len() - 1 {
                assert(text.drop_last()[i] == text[i]);
            }
        }
    } else {
        assert(text.take(text.len() as int) =~= text);
    }
}

/// Dropping a last character of the set first does not change what trimming gives.
proof fn lemma_trim_end_step(text: Seq<char>, set: Set<char>, n: int)
    requires
        0 < n <= text.len(),
        set.contains(text[n - 1]),
    ensures
        trim_end(text.take(n), set) == trim_end(text.take(n - 1), set),
{
    assert(text.take(n).drop_last() =~= text.take(n - 1));
}

/// `text` without the slashes at its end.
pub fn trim_end_slashes(text: &str) -> (trimmed: String)
    ensures
        trimmed@ == trim_end(text@, set!['/']),
{
    let mut n: usize = text.unicode_len();
    assert(text@.take(n as int) =~= text@);
    while n > 0 && text.get_char(n - 1) == '/'
        invariant
            n <= text@.len(),
            trim_end(text@.take(n as int), set!['/']) == trim_end(text@, set!['/']),
        decreases n,
    {
        proof {
            lemma_trim_end_step(text@, set!['/'], n as int);
        }
        n -= 1;
    }
    text.substring_char(0, n).to_owned()
}

/// `text` without carriage returns and line feeds at its end.
pub fn trim_line_end(text: &str) -> (trimmed: &str)
    ensures
        trimmed@ == trim_end(text@, set!['\r', '\n']),
{
    let mut n: usize = text.unicode_len();
    assert(text@.take(n as int) =~= text@);
    while n > 0 && (text.get_char(n - 1) == '\r' || text.get_char(n - 1) == '\n')
        invariant
            n <= text@.len(),
            trim_end(text@.take(n as int), set!['\r', '\n']) == trim_end(
                text@,
                set!['\r', '\n'],
            ),
        decreases n,
    {
        proof {
            lemma_trim_end_step(text@, set!['\r', '\n'], n as int);
        }
        n -= 1;
    }
    text.substring_char(0, n)
}

/// Whether `text` begins with `prefix`.
pub open spec fn starts_with(text: Seq<char>, prefix: Seq<char>) -> bool {
    prefix.len() <= text.len() && text.take(prefix.len() as int) == prefix
}

/// What follows `prefix` in `text`, if `text` begins with it.
pub fn strip_prefix<'a>(text: &'a str, prefix: &str) -> (rest: Option<&'a str>)
    ensures
        match rest {
            Some(rest) => starts_with(text@, prefix@) && rest@ == text@.skip(
                prefix@.len() as int,
            ),
            None => !starts_with(text@, prefix@),
        },
{
    let n: usize = text.unicode_len();
    let k: usize = prefix.unicode_len();
    if k <= n && same_text(text.substring_char(0, k), prefix) {
        Some(text.substring_char(k, n))
    } else {
        None
    }
}

/// The two texts one after the other.
pub fn concat_text(a: &str, b: &str) -> (joined: String)
    ensures
        joined@ == a@ + b@,
{
    let mut out: String = a.to_owned();
    out.append(b);
    out
}

} // verus!
