//! Character-level string helpers shared by the other modules.

use vstd::prelude::*;
use vstd::std_specs::iter::IteratorSpec;

verus! {

/// An optional text as characters.
pub open spec fn opt_view(o: Option<String>) -> Option<Seq<char>> {
    match o {
        Some(s) => Some(s@),
        None => None,
    }
}

/// The characters of `s`, in order.
pub fn chars_of(s: &str) -> (r: Vec<char>)
    ensures
        r@ == s@,
{
    let mut it = s.chars();
    let mut r: Vec<char> = Vec::new();
    loop
        invariant
            r@ + it.remaining() == s@,
            it.decrease() is Some,
        ensures
            r@ == s@,
        decreases it.decrease()->0,
    {
        match it.next() {
            Some(c) => r.push(c),
            None => {
                assert(r@ =~= r@ + it.remaining());
                break;
            },
        }
    }
    r
}

/// Whether two strings hold the same characters.
pub fn str_eq(a: &str, b: &str) -> (r: bool)
    ensures
        r == (a@ == b@),
{
    let n = a.unicode_len();
    if n != b.unicode_len() {
        return false;
    }
    let mut i: usize = 0;
    while i < n
        invariant
            n == a@.len(),
            n == b@.len(),
            i <= n,
            forall|j: int| 0 <= j < i ==> a@[j] == b@[j],
        decreases n - i,
    {
        if a.get_char(i) != b.get_char(i) {
            return false;
        }
        i = i + 1;
    }
    assert(a@ =~= b@);
    true
}

} // verus!
