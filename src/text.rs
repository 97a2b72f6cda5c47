use vstd::prelude::*;

verus! {

/// Whether `c` has the Unicode White_Space property.
pub uninterp spec fn whitespace(c: char) -> bool;

/// A string is blank when every character in it is whitespace (the empty
/// string included).
pub open spec fn blank(s: Seq<char>) -> bool {
    forall|i: int| 0 <= i < s.len() ==> whitespace(#[trigger] s[i])
}

/// Relies on `char::is_whitespace`: true exactly for characters with the
/// Unicode White_Space property, among them space, tab, line feed and
/// carriage return, and never for an ASCII letter or digit.
#[verifier::external_body]
fn is_whitespace(c: char) -> (r: bool)
    ensures
        r == whitespace(c),
        c == ' ' || c == '\t' || c == '\n' || c == '\r' ==> r,
        ('a' <= c <= 'z') || ('A' <= c <= 'Z') || ('0' <= c <= '9') ==> !r,
{
    c.is_whitespace()
}

/// Whether `s` holds nothing but whitespace, so that trimming it leaves it empty.
pub fn is_blank(s: &String) -> (r: bool)
    ensures
        r == blank(s@),
{
    let n = s.as_str().unicode_len();
    let mut i: usize = 0;
    while i < n
        invariant
            n == s@.len(),
            i <= n,
            forall|j: int| 0 <= j < i ==> whitespace(#[trigger] s@[j]),
        decreases n - i,
    {
        let c = s.as_str().get_char(i);
        if !is_whitespace(c) {
            return false;
        }
        i = i + 1;
    }
    true
}

} // verus!
