//! What printing writes.
use vstd::prelude::*;

use crate::runtime::string::Text;

verus! {

/// The bytes that `print` writes.
pub fn nether_rt_io_print(text: &Text) -> (r: &[u8])
    ensures
        r@ == text@,
{
    text.bytes.as_slice()
}

/// The bytes that `println` writes: the text, and a line feed.
pub fn nether_rt_io_println(text: &Text) -> (r: Vec<u8>)
    ensures
        r@ == text@.push(10u8),
{
    let mut out: Vec<u8> = Vec::new();
    out.extend_from_slice(text.bytes.as_slice());
    out.push(10u8);
    proof {
        assert(out@ =~= text@.push(10u8));
    }
    out
}

} // verus!
