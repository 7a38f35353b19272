//! The line-start table of a text.
//!
//! A text of `n` line feeds has `n + 1` lines; the table holds the offset at
//! which each of them starts and, as its last entry, the length of the text.

use vstd::prelude::*;
use vstd::string::StringSliceAdditionalSpecFns;

verus! {

/// The line-feed byte.
pub const LINE_FEED: u8 = 10;

/// The offsets just behind each line feed among the first `n` bytes of
/// `text`, in rising order.
pub open spec fn line_breaks(text: Seq<u8>, n: int) -> Seq<int>
    decreases n,
{
    if n <= 0 {
        Seq::empty()
    } else if text[n - 1] == LINE_FEED {
        line_breaks(text, n - 1).push(n)
    } else {
        line_breaks(text, n - 1)
    }
}

/// The line-start table of `text`: zero, the offset behind each line feed,
/// and the length of the text.
pub open spec fn line_starts(text: Seq<u8>) -> Seq<int> {
    seq![0int] + line_breaks(text, text.len() as int) + seq![text.len() as int]
}

/// A table of machine integers read as mathematical ones.
pub open spec fn as_ints(table: Seq<usize>) -> Seq<int> {
    table.map_values(|v: usize| v as int)
}

/// What every line-start table satisfies: it starts at zero, ends at the
/// length of the text and never falls.
pub open spec fn is_line_table(table: Seq<int>, len: int) -> bool {
    &&& table.len() >= 2
    &&& table[0] == 0
    &&& table[table.len() - 1] == len
    &&& forall|i: int, j: int| 0 <= i <= j < table.len() ==> table[i] <= table[j]
}

/// The breaks found among the first `n` bytes lie in `1..=n`, rise strictly,
/// and are exactly the offsets that follow a line feed.
pub proof fn lemma_line_breaks(text: Seq<u8>, n: int)
    requires
        0 <= n <= text.len(),
    ensures
        line_breaks(text, n).len() <= n,
        forall|i: int|
            0 <= i < line_breaks(text, n).len() ==> 1 <= #[trigger] line_breaks(text, n)[i] <= n,
        forall|i: int, j: int|
            0 <= i < j < line_breaks(text, n).len() ==> line_breaks(text, n)[i] < line_breaks(
                text,
                n,
            )[j],
        forall|k: int|
            1 <= k <= n ==> (line_breaks(text, n).contains(k) <==> text[k - 1] == LINE_FEED),
    decreases n,
{
    if n > 0 {
        lemma_line_breaks(text, n - 1);
        let shorter = line_breaks(text, n - 1);
        let all = line_breaks(text, n);
        assert forall|k: int| 1 <= k <= n implies (all.contains(k) <==> text[k - 1]
            == LINE_FEED) by {
            if text[n - 1] == LINE_FEED {
                assert(all[all.len() - 1] == n);
                if k < n {
                    if shorter.contains(k) {
                        let i = choose|i: int| 0 <= i < shorter.len() && shorter[i] == k;
                        assert(all[i] == k);
                    }
                    if all.contains(k) {
                        let i = choose|i: int| 0 <= i < all.len() && all[i] == k;
                        assert(shorter[i] == k);
                    }
                }
            } else {
                if k == n && all.contains(k) {
                    let i = choose|i: int| 0 <= i < all.len() && all[i] == k;
                    assert(all[i] <= n - 1);
                }
            }
        }
    }
}

/// The table of any text starts at zero, ends at the length of the text and
/// never falls.
pub proof fn lemma_line_starts_shape(text: Seq<u8>)
    ensures
        is_line_table(line_starts(text), text.len() as int),
        line_starts(text).len() == line_breaks(text, text.len() as int).len() + 2,
{
    lemma_line_breaks(text, text.len() as int);
    let table = line_starts(text);
    let breaks = line_breaks(text, text.len() as int);
    assert forall|i: int, j: int| 0 <= i <= j < table.len() implies table[i] <= table[j] by {
        if 0 < i && i < table.len() - 1 {
            assert(table[i] == breaks[i - 1]);
        }
        if 0 < j && j < table.len() - 1 {
            assert(table[j] == breaks[j - 1]);
        }
    }
}

/// Every entry of the table is an offset into the text that is zero, the
/// length of the text, or stands behind a line feed.
pub proof fn lemma_line_start(text: Seq<u8>, i: int)
    requires
        0 <= i < line_starts(text).len(),
    ensures
        0 <= line_starts(text)[i] <= text.len(),
        line_starts(text)[i] == 0 || line_starts(text)[i] == text.len() || text[line_starts(
            text,
        )[i] - 1] == LINE_FEED,
{
    lemma_line_breaks(text, text.len() as int);
    let breaks = line_breaks(text, text.len() as int);
    let table = line_starts(text);
    if 0 < i < table.len() - 1 {
        assert(table[i] == breaks[i - 1]);
        assert(breaks.contains(breaks[i - 1]));
    }
}

/// Builds the line-start table of `content`.
pub fn generate_linestarts(content: &str) -> (table: Vec<usize>)
    ensures
        as_ints(table@) == line_starts(content.spec_bytes()),
        is_line_table(as_ints(table@), content.spec_bytes().len() as int),
{
    let bytes = content.as_bytes();
    let mut table: Vec<usize> = Vec::new();
    table.push(0);
    let mut i: usize = 0;
    while i < bytes.len()
        invariant
            i <= bytes.len(),
            as_ints(table@) == seq![0int] + line_breaks(bytes@, i as int),
        decreases bytes.len() - i,
    {
        let ghost before = table@;
        if bytes[i] == LINE_FEED {
            table.push(i + 1);
        }
        proof {
            let next = line_breaks(bytes@, i as int + 1);
            let prev = line_breaks(bytes@, i as int);
            if bytes@[i as int] == LINE_FEED {
                assert(next == prev.push(i as int + 1));
                assert(table@ == before.push((i + 1) as usize));
                assert(as_ints(table@) =~= as_ints(before).push(i as int + 1));
                assert(as_ints(before).push(i as int + 1) =~= seq![0int] + next);
            } else {
                assert(next == prev);
                assert(table@ == before);
            }
        }
        i = i + 1;
    }
    table.push(bytes.len());
    proof {
        assert(as_ints(table@) =~= line_starts(bytes@));
        lemma_line_starts_shape(bytes@);
    }
    table
}

} // verus!
