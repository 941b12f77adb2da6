use vstd::prelude::*;

use crate::error::Error;

verus! {

/// How many runs of the hashing tool may be under way at once, unless configured otherwise.
pub const DEFAULT_HASH_CONCURRENCY: usize = 10;

/// A character with the Unicode `White_Space` property.
pub open spec fn is_white(c: char) -> bool {
    ||| '\u{9}' <= c <= '\u{d}'
    ||| c == ' ' || c == '\u{85}' || c == '\u{a0}' || c == '\u{1680}'
    ||| '\u{2000}' <= c <= '\u{200a}'
    ||| c == '\u{2028}' || c == '\u{2029}' || c == '\u{202f}' || c == '\u{205f}'
    ||| c == '\u{3000}'
}

/// `t` is `s` without its leading and trailing white space.
pub open spec fn is_trimmed(s: Seq<char>, t: Seq<char>) -> bool {
    exists|a: int, b: int|
        {
            &&& 0 <= a <= b <= s.len()
            &&& t == s.subrange(a, b)
            &&& forall|i: int| 0 <= i < a ==> is_white(#[trigger] s[i])
            &&& forall|i: int| b <= i < s.len() ==> is_white(#[trigger] s[i])
            &&& a < b ==> !is_white(s[a]) && !is_white(s[b - 1])
        }
}

/// Relies on str::trim: removes leading and trailing characters with the Unicode
/// `White_Space` property.
#[verifier::external_body]
fn trim_text(s: &str) -> (r: String)
    ensures
        is_trimmed(s@, r@),
{
    s.trim().to_owned()
}

/// The digest a finished run of the hashing tool gives: its standard output, trimmed,
/// where it succeeded; a failure carrying its exit status otherwise.
pub fn hash_from_output(success: bool, status: Option<i32>, stdout: &str) -> (r: Result<
    String,
    Error,
>)
    ensures
        success ==> (r matches Ok(h) && is_trimmed(stdout@, h@)),
        !success ==> (r matches Err(Error::HashToolFailed { status: s }) && s == status),
{
    if success {
        Ok(trim_text(stdout))
    } else {
        Err(Error::HashToolFailed { status })
    }
}

} // verus!
