//! Text out of the fixed-size buffers that the management library fills.
//!
//! The library writes a name into a buffer of fixed capacity and leaves the
//! rest of it zero. The text of such a buffer is what remains of its
//! characters once the trailing NUL characters are taken off and then the
//! white space at both ends.

use vstd::prelude::*;
use vstd::string::*;
use vstd::utf8::*;

use crate::error::AmdSmiError;

verus! {

/// Whether `c` has the Unicode property `White_Space`.
pub open spec fn is_white_space(c: char) -> bool {
    let u = c as u32;
    ||| 0x09 <= u <= 0x0D
    ||| u == 0x20
    ||| u == 0x85
    ||| u == 0xA0
    ||| u == 0x1680
    ||| 0x2000 <= u <= 0x200A
    ||| u == 0x2028
    ||| u == 0x2029
    ||| u == 0x202F
    ||| u == 0x205F
    ||| u == 0x3000
}

/// `s` without the NUL characters at its end.
pub open spec fn strip_trailing_nul(s: Seq<char>) -> Seq<char>
    decreases s.len(),
{
    if s.len() > 0 && s.last() == '\0' {
        strip_trailing_nul(s.drop_last())
    } else {
        s
    }
}

/// `s` without the white space at its end.
pub open spec fn trim_end(s: Seq<char>) -> Seq<char>
    decreases s.len(),
{
    if s.len() > 0 && is_white_space(s.last()) {
        trim_end(s.drop_last())
    } else {
        s
    }
}

/// `s` without the white space at its start.
pub open spec fn trim_start(s: Seq<char>) -> Seq<char>
    decreases s.len(),
{
    if s.len() > 0 && is_white_space(s.first()) {
        trim_start(s.drop_first())
    } else {
        s
    }
}

/// `s` without the white space at both ends.
pub open spec fn trim(s: Seq<char>) -> Seq<char> {
    trim_start(trim_end(s))
}

/// The text of a buffer that holds the characters `s`: the trailing NUL
/// characters go first, then the white space at both ends.
pub open spec fn cleaned(s: Seq<char>) -> Seq<char> {
    trim(strip_trailing_nul(s))
}

/// The text of a buffer that holds `bytes`: unexpected data where the bytes
/// are not UTF-8, and else the cleaned characters that they encode.
pub open spec fn buffer_text(bytes: Seq<u8>) -> Result<Seq<char>, AmdSmiError> {
    if valid_utf8(bytes) {
        Ok(cleaned(decode_utf8(bytes)))
    } else {
        Err(AmdSmiError::AmdsmiStatusUnexpectedData)
    }
}

/// Whether `c` has the Unicode property `White_Space`.
pub fn white_space(c: char) -> (b: bool)
    ensures
        b == is_white_space(c),
{
    let u: u32 = c as u32;
    (0x09 <= u && u <= 0x0D) || u == 0x20 || u == 0x85 || u == 0xA0 || u == 0x1680 || (0x2000 <= u
        && u <= 0x200A) || u == 0x2028 || u == 0x2029 || u == 0x202F || u == 0x205F || u == 0x3000
}

/// Calls `core::str::from_utf8`. Its contract is taken on trust from the
/// documentation of that function: the bytes are accepted exactly when they
/// are UTF-8, and the string slice that comes back has the same bytes.
#[verifier::external_body]
fn str_from_utf8(bytes: &[u8]) -> (r: Option<&str>)
    ensures
        r is Some <==> valid_utf8(bytes@),
        r matches Some(s) ==> s.spec_bytes() == bytes@,
{
    core::str::from_utf8(bytes).ok()
}

/// The characters of `s`, in order.
fn chars_of(s: &str) -> (chars: Vec<char>)
    ensures
        chars@ == s@,
{
    let mut chars: Vec<char> = Vec::new();
    for c in it: s.chars()
        invariant
            it.seq() == s@,
            chars@ == it.seq().take(it.index() as int),
    {
        chars.push(c);
    }
    chars
}

/// The cleaned text of `s`.
pub fn cleanup(s: &str) -> (text: String)
    ensures
        text@ == cleaned(s@),
{
    let chars = chars_of(s);
    let mut end: usize = chars.len();
    assert(chars@.take(end as int) == chars@);
    while end > 0 && chars[end - 1] == '\0'
        invariant
            end <= chars.len(),
            strip_trailing_nul(chars@) == strip_trailing_nul(chars@.take(end as int)),
        decreases end,
    {
        assert(chars@.take(end as int).drop_last() == chars@.take(end - 1));
        end -= 1;
    }
    assert(strip_trailing_nul(chars@) == chars@.take(end as int));
    let mut stop: usize = end;
    while stop > 0 && white_space(chars[stop - 1])
        invariant
            stop <= end <= chars.len(),
            trim_end(chars@.take(end as int)) == trim_end(chars@.take(stop as int)),
        decreases stop,
    {
        assert(chars@.take(stop as int).drop_last() == chars@.take(stop - 1));
        stop -= 1;
    }
    assert(trim_end(chars@.take(end as int)) == chars@.take(stop as int));
    let mut start: usize = 0;
    while start < stop && white_space(chars[start])
        invariant
            start <= stop <= chars.len(),
            trim_start(chars@.take(stop as int)) == trim_start(
                chars@.subrange(start as int, stop as int),
            ),
        decreases stop - start,
    {
        assert(chars@.subrange(start as int, stop as int).drop_first() == chars@.subrange(
            start + 1,
            stop as int,
        ));
        start += 1;
    }
    assert(chars@.take(stop as int) == chars@.subrange(0, stop as int));
    assert(trim_start(chars@.take(stop as int)) == chars@.subrange(start as int, stop as int));
    s.substring_char(start, stop).to_owned()
}

/// The text of a buffer: refuses bytes that are not UTF-8 as unexpected
/// data, and else returns the cleaned characters that they encode.
pub fn string_from_buffer(buffer: &[u8]) -> (r: Result<String, AmdSmiError>)
    ensures
        r is Ok <==> valid_utf8(buffer@),
        r matches Ok(text) ==> buffer_text(buffer@) == Ok::<Seq<char>, AmdSmiError>(text@),
        r matches Err(e) ==> buffer_text(buffer@) == Err::<Seq<char>, AmdSmiError>(e),
{
    match str_from_utf8(buffer) {
        Some(s) => {
            proof {
                encode_utf8_decode_utf8(s@);
            }
            Ok(cleanup(s))
        },
        None => Err(AmdSmiError::AmdsmiStatusUnexpectedData),
    }
}

/// Text that can be cleaned as the text of a buffer is.
pub trait StringCleanup {
    /// The cleaned text.
    fn string_cleanup(self) -> String;
}

impl StringCleanup for String {
    fn string_cleanup(self) -> (text: String)
        ensures
            text@ == cleaned(self@),
    {
        cleanup(self.as_str())
    }
}

impl StringCleanup for &str {
    fn string_cleanup(self) -> (text: String)
        ensures
            text@ == cleaned(self@),
    {
        cleanup(self)
    }
}

/// The characters that the bytes stand for where each byte is ASCII.
pub open spec fn ascii_chars(bytes: Seq<u8>) -> Seq<char> {
    Seq::new(bytes.len(), |i: int| bytes[i] as char)
}

/// Whether every byte is a printable ASCII character, the space included.
pub open spec fn is_printable_ascii(bytes: Seq<u8>) -> bool {
    forall|i: int| 0 <= i < bytes.len() ==> 0x20 <= #[trigger] bytes[i] <= 0x7E
}

/// Whether every byte is zero.
pub open spec fn is_nul_padding(bytes: Seq<u8>) -> bool {
    forall|i: int| 0 <= i < bytes.len() ==> #[trigger] bytes[i] == 0
}

/// What `trim_end` leaves is the start of `s`, all it takes off is white
/// space, and what it leaves does not end in white space.
pub proof fn lemma_trim_end_shape(s: Seq<char>)
    ensures
        trim_end(s).len() <= s.len(),
        trim_end(s) == s.take(trim_end(s).len() as int),
        forall|i: int| trim_end(s).len() <= i < s.len() ==> is_white_space(#[trigger] s[i]),
        trim_end(s).len() > 0 ==> !is_white_space(trim_end(s).last()),
    decreases s.len(),
{
    if s.len() > 0 && is_white_space(s.last()) {
        lemma_trim_end_shape(s.drop_last());
        assert(s.drop_last().take(trim_end(s).len() as int) == s.take(trim_end(s).len() as int));
        assert forall|i: int| trim_end(s).len() <= i < s.len() implies is_white_space(
            #[trigger] s[i],
        ) by {
            if i < s.len() - 1 {
                assert(s[i] == s.drop_last()[i]);
            }
        }
    } else {
        assert(s.take(s.len() as int) == s);
    }
}

/// What `trim_start` leaves is the end of `s`, all it takes off is white
/// space, and what it leaves does not start with white space.
pub proof fn lemma_trim_start_shape(s: Seq<char>)
    ensures
        trim_start(s).len() <= s.len(),
        trim_start(s) == s.skip(s.len() - trim_start(s).len()),
        forall|i: int| 0 <= i < s.len() - trim_start(s).len() ==> is_white_space(#[trigger] s[i]),
        trim_start(s).len() > 0 ==> !is_white_space(trim_start(s).first()),
    decreases s.len(),
{
    if s.len() > 0 && is_white_space(s.first()) {
        let rest = s.drop_first();
        lemma_trim_start_shape(rest);
        assert(rest.skip(rest.len() - trim_start(s).len()) == s.skip(s.len() - trim_start(s).len()));
        assert forall|i: int| 0 <= i < s.len() - trim_start(s).len() implies is_white_space(
            #[trigger] s[i],
        ) by {
            if i > 0 {
                assert(s[i] == rest[i - 1]);
            }
        }
    } else {
        assert(s.skip(0) == s);
    }
}

/// What `strip_trailing_nul` leaves is the start of `s`, all it takes off is
/// NUL characters, and what it leaves does not end in one.
pub proof fn lemma_strip_trailing_nul_shape(s: Seq<char>)
    ensures
        strip_trailing_nul(s).len() <= s.len(),
        strip_trailing_nul(s) == s.take(strip_trailing_nul(s).len() as int),
        forall|i: int| strip_trailing_nul(s).len() <= i < s.len() ==> #[trigger] s[i] == '\0',
        strip_trailing_nul(s).len() > 0 ==> strip_trailing_nul(s).last() != '\0',
    decreases s.len(),
{
    if s.len() > 0 && s.last() == '\0' {
        lemma_strip_trailing_nul_shape(s.drop_last());
        let n = strip_trailing_nul(s).len() as int;
        assert(s.drop_last().take(n) == s.take(n));
        assert forall|i: int| n <= i < s.len() implies #[trigger] s[i] == '\0' by {
            if i < s.len() - 1 {
                assert(s[i] == s.drop_last()[i]);
            }
        }
    } else {
        assert(s.take(s.len() as int) == s);
    }
}

/// Bytes that are all ASCII are UTF-8, and encode one character each.
proof fn lemma_ascii_decodes(bytes: Seq<u8>)
    requires
        forall|i: int| 0 <= i < bytes.len() ==> #[trigger] bytes[i] < 0x80,
    ensures
        valid_utf8(bytes),
        decode_utf8(bytes) == ascii_chars(bytes),
{
    let chars = ascii_chars(bytes);
    assert(is_ascii_chars(chars));
    is_ascii_chars_encode_utf8(chars);
    assert(encode_utf8(chars) =~= bytes);
    encode_utf8_valid_utf8(chars);
    encode_utf8_decode_utf8(chars);
}

/// Taking the trailing NUL characters off text that does not end in one,
/// followed by NUL characters only, leaves the text.
proof fn lemma_strip_padding(text: Seq<char>, padding: Seq<char>)
    requires
        text.len() > 0 ==> text.last() != '\0',
        forall|i: int| 0 <= i < padding.len() ==> #[trigger] padding[i] == '\0',
    ensures
        strip_trailing_nul(text + padding) == text,
    decreases padding.len(),
{
    if padding.len() == 0 {
        assert(text + padding == text);
    } else {
        assert((text + padding).drop_last() == text + padding.drop_last());
        lemma_strip_padding(text, padding.drop_last());
    }
}

/// White space at the start of text that NUL characters follow is the
/// white space at the start of the text.
proof fn lemma_trim_start_padded(text: Seq<char>, padding: Seq<char>)
    requires
        padding.len() > 0,
        forall|i: int| 0 <= i < padding.len() ==> #[trigger] padding[i] == '\0',
    ensures
        trim_start(text + padding) == trim_start(text) + padding,
    decreases text.len(),
{
    if text.len() == 0 {
        assert(text + padding == padding);
        assert(trim_start(text) + padding == padding);
        assert(padding.first() == '\0');
    } else if is_white_space(text.first()) {
        assert((text + padding).drop_first() == text.drop_first() + padding);
        lemma_trim_start_padded(text.drop_first(), padding);
    } else {
        assert((text + padding).first() == text.first());
    }
}

/// Text that is white space throughout is trimmed to nothing from either
/// end.
proof fn lemma_trim_blank(text: Seq<char>)
    requires
        forall|i: int| 0 <= i < text.len() ==> is_white_space(#[trigger] text[i]),
    ensures
        trim_end(text).len() == 0,
        trim_start(text).len() == 0,
{
    lemma_trim_end_shape(text);
    lemma_trim_start_shape(text);
    if trim_end(text).len() > 0 {
        let k = trim_end(text).len() - 1;
        assert(trim_end(text).last() == text.take(trim_end(text).len() as int)[k]);
        assert(is_white_space(text[k]));
    }
    if trim_start(text).len() > 0 {
        let k = text.len() - trim_start(text).len();
        assert(trim_start(text).first() == text.skip(k)[0]);
        assert(is_white_space(text[k]));
    }
}

/// A buffer that holds printable ASCII text and then one or more NUL bytes
/// is read as that text without its padding and without the white space at
/// its ends: no NUL character is left, and what is left neither starts nor
/// ends with white space.
pub proof fn lemma_padded_buffer_text(text: Seq<u8>, padding: Seq<u8>)
    requires
        is_printable_ascii(text),
        is_nul_padding(padding),
        padding.len() >= 1,
    ensures
        buffer_text(text + padding) == Ok::<Seq<char>, AmdSmiError>(trim(ascii_chars(text))),
        forall|i: int|
            0 <= i < trim(ascii_chars(text)).len() ==> #[trigger] trim(ascii_chars(text))[i]
                != '\0',
        trim(ascii_chars(text)).len() > 0 ==> !is_white_space(trim(ascii_chars(text)).first())
            && !is_white_space(trim(ascii_chars(text)).last()),
{
    let bytes = text + padding;
    let chars = ascii_chars(text);
    let nuls = ascii_chars(padding);
    lemma_ascii_decodes(bytes);
    assert(ascii_chars(bytes) == chars + nuls);
    lemma_strip_padding(chars, nuls);
    let kept = trim_end(chars);
    lemma_trim_end_shape(chars);
    lemma_trim_start_shape(kept);
    let out = trim(chars);
    let lead = kept.len() - out.len();
    assert forall|i: int| 0 <= i < out.len() implies #[trigger] out[i] != '\0' by {
        assert(out[i] == kept.skip(lead)[i]);
        assert(kept[lead + i] == chars.take(kept.len() as int)[lead + i]);
        assert(chars[lead + i] == text[lead + i] as char);
    }
    if out.len() > 0 {
        assert(out.last() == kept.skip(lead)[out.len() - 1]);
        assert(kept.last() == kept[lead + out.len() - 1]);
    }
}

/// For a buffer that holds printable ASCII text and then one or more NUL
/// bytes, the order of the two steps does not matter, as long as the text
/// does not end in white space or is white space throughout: taking off the
/// padding and then the white space gives what taking off the white space
/// and then the padding gives.
pub proof fn lemma_cleanup_order(text: Seq<u8>, padding: Seq<u8>)
    requires
        is_printable_ascii(text),
        is_nul_padding(padding),
        padding.len() >= 1,
        text.len() == 0 || text.last() != 0x20 || forall|i: int|
            0 <= i < text.len() ==> #[trigger] text[i] == 0x20,
    ensures
        strip_trailing_nul(trim(ascii_chars(text + padding))) == trim(
            strip_trailing_nul(ascii_chars(text + padding)),
        ),
{
    let chars = ascii_chars(text);
    let nuls = ascii_chars(padding);
    let all = ascii_chars(text + padding);
    assert(all == chars + nuls);
    lemma_strip_padding(chars, nuls);
    assert(all.last() == nuls.last());
    assert(trim_end(all) == all);
    lemma_trim_start_padded(chars, nuls);
    lemma_trim_start_shape(chars);
    let tail = trim_start(chars);
    if tail.len() > 0 {
        let k = chars.len() - tail.len();
        assert(tail.last() == chars.skip(k)[tail.len() - 1]);
        assert(chars.last() == text.last() as char);
    }
    lemma_strip_padding(tail, nuls);
    if text.len() > 0 && text.last() == 0x20 {
        assert forall|i: int| 0 <= i < chars.len() implies is_white_space(#[trigger] chars[i]) by {
            assert(chars[i] == text[i] as char);
        }
        lemma_trim_blank(chars);
        assert(trim_end(chars) =~= Seq::<char>::empty());
        assert(trim_start(chars) =~= Seq::<char>::empty());
    } else if text.len() > 0 {
        assert(chars.last() == text.last() as char);
        assert(trim_end(chars) == chars);
    }
}

} // verus!
