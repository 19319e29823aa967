//! Small string helpers over what vstd specifies.

use vstd::prelude::*;

verus! {

/// Relies on `str`'s `==` (core's `PartialEq for str`): equality of string
/// slices is character-for-character equality.
#[verifier::external_body]
pub fn str_eq(a: &str, b: &str) -> (r: bool)
    ensures
        r == (a@ == b@),
{
    a == b
}

/// Relies on `String::push` (alloc): appends exactly the one character.
#[verifier::external_body]
pub fn push_char(s: &mut String, c: char)
    ensures
        final(s)@ == old(s)@.push(c),
{
    s.push(c);
}

/// The views of a list of strings.
pub open spec fn strings_view(s: Seq<String>) -> Seq<Seq<char>> {
    s.map_values(|x: String| x@)
}

/// Copies of a string list.
pub(crate) fn clone_strings(ss: &Vec<String>) -> (r: Vec<String>)
    ensures
        r@.len() == ss@.len(),
        forall|k: int| 0 <= k < ss@.len() ==> #[trigger] r@[k]@ == ss@[k]@,
{
    let n = ss.len();
    let mut out: Vec<String> = Vec::new();
    let mut i: usize = 0;
    while i < n
        invariant
            0 <= i <= n,
            n == ss@.len(),
            out@.len() == i,
            forall|k: int| 0 <= k < i ==> #[trigger] out@[k]@ == ss@[k]@,
        decreases n - i,
    {
        out.push(ss[i].clone());
        i = i + 1;
    }
    out
}

/// An owned copy of a string slice.
pub fn copy_str(s: &str) -> (r: String)
    ensures
        r@ == s@,
{
    let mut out = String::new();
    out.append(s);
    out
}

} // verus!
