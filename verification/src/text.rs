//! Small text helpers shared by the codecs: building a `String` one
//! character at a time, reading a `&str` out as its characters, and turning
//! a scalar value into the character it codes.

use crate::json::is_scalar_code;
use vstd::prelude::*;
use vstd::string::StrSliceExecFns;

verus! {

/// The character sequences a vector of strings stands for, in order.
pub open spec fn str_views(v: Seq<String>) -> Seq<Seq<char>> {
    v.map_values(|s: String| s@)
}

/// Relies on `String::push`: appends exactly the given character.
#[verifier::external_body]
pub fn push_char(s: &mut String, c: char)
    ensures
        final(s)@ == old(s)@.push(c),
{
    s.push(c);
}

/// Relies on `char::from_u32`: `Some` exactly for Unicode scalar values,
/// giving the character with that code.
#[verifier::external_body]
pub fn char_from_code(n: u32) -> (r: Option<char>)
    ensures
        r == if is_scalar_code(n as int) {
            Some(n as char)
        } else {
            None::<char>
        },
{
    char::from_u32(n)
}

/// The characters of `s`, in order.
pub fn chars_vec(s: &str) -> (r: Vec<char>)
    ensures
        r@ == s@,
{
    let n = s.unicode_len();
    let mut r: Vec<char> = Vec::new();
    let mut i: usize = 0;
    while i < n
        invariant
            n == s@.len(),
            i <= n,
            r@ == s@.take(i as int),
        decreases n - i,
    {
        let c = s.get_char(i);
        r.push(c);
        proof {
            assert(s@.take(i + 1) =~= s@.take(i as int).push(s@[i as int]));
        }
        i = i + 1;
    }
    proof {
        assert(s@.take(n as int) =~= s@);
    }
    r
}

} // verus!
