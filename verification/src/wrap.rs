//! Where a line that is too wide is broken.

use crate::text::trim_end;
use crate::text::trimmed_end;
use unicode_linebreak::linebreaks;
use vstd::prelude::*;
use vstd::string::StringSliceAdditionalSpecFns;

verus! {

/// The byte offsets at which `text` may be broken into lines, in rising
/// order: what `unicode_linebreak::linebreaks` gives for it.
pub uninterp spec fn break_opportunities(text: Seq<u8>) -> Seq<usize>;

/// `unicode_linebreak::linebreaks`, of which the offsets are kept.
#[verifier::external_body]
fn opportunities(text: &str) -> (r: Vec<usize>)
    ensures
        r@ == break_opportunities(text.spec_bytes()),
{
    linebreaks(text).map(|(offset, _)| offset).collect()
}

/// The breaks that the opportunities `found` from index `from` on give to
/// a line of `width` columns: before every opportunity at or behind the
/// width, the opportunity before it.
pub open spec fn breaks_from(found: Seq<usize>, width: usize, from: int) -> Seq<usize>
    decreases found.len() - from,
{
    if from < 0 || from >= found.len() {
        Seq::empty()
    } else if from > 0 && found[from] >= width {
        seq![found[from - 1]] + breaks_from(found, width, from + 1)
    } else {
        breaks_from(found, width, from + 1)
    }
}

/// The breaks that the opportunities `found` give to a line of `width`
/// columns.
pub fn breaks_of(found: &Vec<usize>, width: usize) -> (breaks: Vec<usize>)
    ensures
        breaks@ == breaks_from(found@, width, 0),
{
    let mut breaks: Vec<usize> = Vec::new();
    let mut i: usize = 0;
    while i < found.len()
        invariant
            i <= found@.len(),
            breaks@ + breaks_from(found@, width, i as int) == breaks_from(found@, width, 0),
        decreases found@.len() - i,
    {
        let ghost rest = breaks_from(found@, width, i as int);
        if i > 0 && found[i] >= width {
            breaks.push(found[i - 1]);
            assert(breaks@ + breaks_from(found@, width, i + 1) =~= breaks@.drop_last() + rest);
        }
        i = i + 1;
    }
    assert(breaks@ + breaks_from(found@, width, i as int) =~= breaks@);
    breaks
}

/// given a line, return any linebreaks
pub fn get_linebreak_locations(line: &str, width: usize) -> (breaks: Vec<usize>)
    ensures
        breaks@ == breaks_from(
            break_opportunities(vstd::utf8::encode_utf8(trimmed_end(line@))),
            width,
            0,
        ),
{
    let found = opportunities(trim_end(line));
    breaks_of(&found, width)
}

} // verus!
