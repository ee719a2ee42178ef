//! The primitive scanner: skips insignificant whitespace before every
//! token, so that spacing and field order in the source are irrelevant.

use vstd::prelude::*;

use crate::text::ws_end;
use crate::text::scan_ws;

verus! {

/// Consume the maximal prefix of space/tab/CR/LF bytes starting at
/// `pos`.  Never fails; the position of the first significant byte (or
/// the end of input) is returned.
pub fn space(input: &Vec<u8>, pos: usize) -> (r: usize)
    requires
        pos <= input@.len(),
    ensures
        r == ws_end(input@, pos as int),
        pos <= r <= input@.len(),
{
    scan_ws(input, pos)
}

} // verus!
