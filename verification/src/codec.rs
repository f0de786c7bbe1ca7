//! Byte-level conversions through `encoding_rs`, `urlencoding`, `minify-html`
//! and the standard library.
use vstd::prelude::*;
use vstd::utf8::encode_utf8;

verus! {

/// The text that `encoding_rs::BIG5.decode` makes of `bytes` (with its BOM
/// sniffing and its replacement of malformed sequences).
pub uninterp spec fn big5_decoded(bytes: Seq<u8>) -> Seq<char>;

/// Calls `encoding_rs::BIG5.decode`. The contract names the decoded text and
/// states what the crate's documentation promises of ASCII-only input for an
/// ASCII-compatible encoding such as Big5: it comes back unchanged. The size
/// computation of the output buffer panics on overflow; inputs far below
/// `usize::MAX` stay clear of it.
#[verifier::external_body]
pub(crate) fn decode_big5(bytes: &[u8]) -> (res: String)
    requires
        bytes@.len() <= usize::MAX / 16,
    ensures
        res@ == big5_decoded(bytes@),
        (forall|i: int| 0 <= i < bytes@.len() ==> #[trigger] bytes@[i] < 0x80) ==> res@ == bytes@.map_values(
            |b: u8| b as char,
        ),
{
    let (text, _, _) = encoding_rs::BIG5.decode(bytes);
    text.into_owned()
}

/// A byte that percent-encoding leaves as it is: an ASCII letter or digit,
/// `-`, `.`, `_` or `~`.
pub open spec fn url_safe_byte(b: u8) -> bool {
    (0x30 <= b <= 0x39) || (0x41 <= b <= 0x5a) || (0x61 <= b <= 0x7a) || b == 0x2d || b == 0x2e
        || b == 0x5f || b == 0x7e
}

/// The upper-case hexadecimal digit for `d`.
pub open spec fn hex_digit(d: nat) -> char {
    if d < 10 {
        (48 + d) as char
    } else {
        (55 + d) as char
    }
}

/// `bytes` percent-encoded: safe bytes as they are, every other byte as `%`
/// and two upper-case hexadecimal digits.
pub open spec fn percent_encoded(bytes: Seq<u8>) -> Seq<char>
    decreases bytes.len(),
{
    if bytes.len() == 0 {
        seq![]
    } else {
        let b = bytes[0];
        (if url_safe_byte(b) {
            seq![b as char]
        } else {
            seq!['%', hex_digit((b / 16) as nat), hex_digit((b % 16) as nat)]
        }) + percent_encoded(bytes.skip(1))
    }
}

/// Calls `urlencoding::encode`, which percent-encodes every byte of the UTF-8
/// form of `text` except ASCII letters, digits, `-`, `.`, `_` and `~`, writing
/// `%` and two upper-case hexadecimal digits; the contract states exactly that.
#[verifier::external_body]
pub(crate) fn url_encode(text: &str) -> (res: String)
    ensures
        res@ == percent_encoded(encode_utf8(text@)),
{
    urlencoding::encode(text).into_owned()
}

/// The bytes that `minify_html::minify` makes of `html` under the default configuration.
pub uninterp spec fn minified(html: Seq<u8>) -> Seq<u8>;

/// Calls `minify_html::minify` on the UTF-8 bytes of `html` with
/// `minify_html::Cfg::default()`. The contract names the result.
#[verifier::external_body]
pub(crate) fn minify(html: &str) -> (res: Vec<u8>)
    ensures
        res@ == minified(encode_utf8(html@)),
{
    minify_html::minify(html.as_bytes(), &minify_html::Cfg::default())
}

/// The text that `String::from_utf8_lossy` makes of `bytes`.
pub uninterp spec fn lossy_decoded(bytes: Seq<u8>) -> Seq<char>;

/// Calls `String::from_utf8_lossy`. The contract names its result, and states
/// what its documentation promises of valid UTF-8: it comes back as the text
/// it encodes (invalid sequences become U+FFFD).
#[verifier::external_body]
pub(crate) fn utf8_lossy(bytes: &[u8]) -> (res: String)
    ensures
        res@ == lossy_decoded(bytes@),
        vstd::utf8::valid_utf8(bytes@) ==> res@ == vstd::utf8::decode_utf8(bytes@),
{
    String::from_utf8_lossy(bytes).into_owned()
}

} // verus!
