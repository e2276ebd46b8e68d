//! Collapsing long breadcrumb paths: a path with more segments than a fixed
//! maximum keeps its first and last segments and shows a single ellipsis
//! segment in place of the middle.

use vstd::prelude::*;

verus! {

/// The most segments a breadcrumb path shows before its middle is collapsed.
pub const MAX_SEGMENTS: usize = 12;

/// Where the kept prefix of a path of `len` segments ends, under a budget of
/// `max` segments: half the budget, or the whole path where it is shorter.
pub open spec fn prefix_end(len: int, max: int) -> int {
    if len < max / 2 {
        len
    } else {
        max / 2
    }
}

/// Where the kept suffix of a path of `len` segments starts: half the budget
/// from the end, but never before the kept prefix ends.
pub open spec fn suffix_start(len: int, max: int) -> int {
    let tail = if len >= max / 2 {
        len - max / 2
    } else {
        0
    };
    if tail > prefix_end(len, max) {
        tail
    } else {
        prefix_end(len, max)
    }
}

/// The collapsed path: unchanged where prefix and suffix cover it whole, else
/// the kept prefix, one ellipsis segment, and the kept suffix.
pub open spec fn collapsed<T>(s: Seq<T>, ellipsis: T, max: int) -> Seq<T> {
    let pe = prefix_end(s.len() as int, max);
    let ss = suffix_start(s.len() as int, max);
    if ss > pe {
        s.take(pe) + seq![ellipsis] + s.skip(ss)
    } else {
        s
    }
}

/// Replace the middle of the path with the given ellipsis segment whenever
/// the path has more than `max_segments` segments; shorter paths stay as they
/// are (and the ellipsis segment is discarded).
pub fn collapse_middle<T>(segments: &mut Vec<T>, ellipsis: T, max_segments: usize)
    ensures
        final(segments)@ == collapsed(old(segments)@, ellipsis, max_segments as int),
{
    let ghost orig = segments@;
    let half = max_segments / 2;
    let len = segments.len();
    let prefix_end_ix = if len < half {
        len
    } else {
        half
    };
    let tail = if len >= half {
        len - half
    } else {
        0
    };
    let suffix_start_ix = if tail > prefix_end_ix {
        tail
    } else {
        prefix_end_ix
    };
    proof {
        assert(prefix_end_ix as int == prefix_end(orig.len() as int, max_segments as int));
        assert(suffix_start_ix as int == suffix_start(orig.len() as int, max_segments as int));
        assert(prefix_end_ix <= suffix_start_ix <= len);
    }
    if suffix_start_ix > prefix_end_ix {
        let mut k = suffix_start_ix - prefix_end_ix;
        proof {
            assert(segments@ =~= orig.take(prefix_end_ix as int) + orig.skip(
                suffix_start_ix as int - k as int,
            ));
        }
        while k > 0
            invariant
                k <= suffix_start_ix - prefix_end_ix,
                prefix_end_ix < suffix_start_ix <= orig.len(),
                segments@ == orig.take(prefix_end_ix as int) + orig.skip(
                    suffix_start_ix as int - k as int,
                ),
            decreases k,
        {
            let ghost before = segments@;
            segments.remove(prefix_end_ix);
            proof {
                assert(segments@ =~= orig.take(prefix_end_ix as int) + orig.skip(
                    suffix_start_ix as int - (k as int - 1),
                ));
            }
            k = k - 1;
        }
        segments.insert(prefix_end_ix, ellipsis);
        proof {
            assert(segments@ =~= orig.take(prefix_end_ix as int) + seq![ellipsis] + orig.skip(
                suffix_start_ix as int,
            ));
        }
    }
}

} // verus!
