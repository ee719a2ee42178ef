//! Unicode case folding and trimming, taken from std.  The exact
//! mappings are far too large to restate, so the character-level
//! results are named, the std calls stand behind trusted
//! specifications, and the byte-level operations the renderer uses are
//! verified compositions of those names with UTF-8 encoding.

use vstd::prelude::*;

use vstd::string::StrSliceExecFns;
use vstd::utf8::encode_utf8;

verus! {

/// The characters that `String::from_utf8_lossy` yields for the given
/// bytes: the decoded text, with every invalid sequence replaced.  A
/// function of the bytes alone.
pub uninterp spec fn lossy_of(s: Seq<u8>) -> Seq<char>;

/// Relies on `String::from_utf8_lossy`: the decoding depends on the
/// bytes alone.
#[verifier::external_body]
fn lossy_string(s: &Vec<u8>) -> (r: String)
    ensures
        r@ == lossy_of(s@),
{
    String::from_utf8_lossy(s).into_owned()
}

/// The Unicode upper-case form of the text, as `str::to_uppercase`
/// computes it: locale-independent, a function of the characters
/// alone.
pub uninterp spec fn uppercase_of(s: Seq<char>) -> Seq<char>;

/// Relies on `str::to_uppercase`: the Unicode upper-case mapping,
/// locale-independent.
pub assume_specification[ std::primitive::str::to_uppercase ](s: &str) -> (r: String)
    ensures
        r@ == uppercase_of(s@),
;

/// The text without its leading and trailing Unicode whitespace, as
/// `str::trim` computes it: a function of the characters alone.
pub uninterp spec fn trimmed_of(s: Seq<char>) -> Seq<char>;

/// Relies on `str::trim`: leading and trailing Unicode whitespace
/// removed, nothing else.
pub assume_specification[ std::primitive::str::trim ](s: &str) -> (r: &str)
    ensures
        r@ == trimmed_of(s@),
;

/// The bytes of the Unicode upper-case form of the (lossily decoded)
/// text.
pub open spec fn upper_of(s: Seq<u8>) -> Seq<u8> {
    encode_utf8(uppercase_of(lossy_of(s)))
}

/// The bytes of the (lossily decoded) text without its leading and
/// trailing Unicode whitespace.
pub open spec fn trim_of(s: Seq<u8>) -> Seq<u8> {
    encode_utf8(trimmed_of(lossy_of(s)))
}

/// Upper-case the text held in `s`.
pub fn to_upper(s: &Vec<u8>) -> (r: Vec<u8>)
    ensures
        r@ == upper_of(s@),
{
    let text = lossy_string(s);
    let upper = text.as_str().to_uppercase();
    upper.as_str().as_bytes_vec()
}

/// Remove the leading and trailing Unicode whitespace of the text held
/// in `s`.
pub fn trim(s: &Vec<u8>) -> (r: Vec<u8>)
    ensures
        r@ == trim_of(s@),
{
    let text = lossy_string(s);
    let trimmed = text.as_str().trim();
    trimmed.as_bytes_vec()
}

} // verus!
