//! The field-body parser: a raw byte span up to the `\par` terminator,
//! or the whole remaining input when no terminator follows.

use vstd::prelude::*;

use crate::lit::par_tag;
use crate::lit::par_tag_v;
use crate::space::space;
use crate::text::copy_range;
use crate::text::find_pat;
use crate::text::find_pattern;
use crate::text::lemma_ws_end;
use crate::text::ws_end;

verus! {

/// What [`paragraph`] consumes at `i`: the body span after leading
/// whitespace and the position after the discarded `\par` terminator
/// (or the end of input when the terminator never occurs).
pub open spec fn spec_paragraph(s: Seq<u8>, i: int) -> (Seq<u8>, int) {
    let j = ws_end(s, i);
    match find_pat(s, j, par_tag()) {
        Some(k) => (s.subrange(j, k), k + par_tag().len()),
        None => (s.subrange(j, s.len() as int), s.len() as int),
    }
}

pub proof fn lemma_spec_paragraph(s: Seq<u8>, i: int)
    requires
        0 <= i <= s.len(),
    ensures
        i <= spec_paragraph(s, i).1 <= s.len(),
{
    lemma_ws_end(s, i);
    let j = ws_end(s, i);
    crate::text::lemma_find_pat(s, j, par_tag());
}

/// Skip leading whitespace, then consume bytes up to (but not
/// including) the next `\par`; the terminator itself is consumed and
/// discarded.  If it never occurs, the whole remaining input is the
/// body.  Returns the body span and the position of the remainder.
pub fn paragraph(input: &Vec<u8>, pos: usize) -> (r: (Vec<u8>, usize))
    requires
        pos <= input@.len(),
    ensures
        r.0@ == spec_paragraph(input@, pos as int).0,
        r.1 == spec_paragraph(input@, pos as int).1,
        pos <= r.1 <= input@.len(),
{
    let n = input.len();
    let j = space(input, pos);
    let pat = par_tag_v();
    match find_pattern(input, j, &pat) {
        Some(k) => {
            let body = copy_range(input, j, k);
            assert(k + 4 <= n);
            (body, k + 4)
        },
        None => {
            let body = copy_range(input, j, n);
            (body, n)
        },
    }
}

} // verus!
