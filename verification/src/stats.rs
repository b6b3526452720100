//! Path-wide extrema and the read-only statistics summary: keyframe count,
//! earliest and latest timestamp, and their difference as the duration.

use vstd::prelude::*;
use crate::model::{CameraPath, Entry};
use crate::units::clamp_i64;

verus! {

/// The least value of `f` across the collection, or 0 when it is empty.
pub open spec fn min_of(s: Seq<Entry>, f: spec_fn(Entry) -> int) -> int
    decreases s.len(),
{
    if s.len() == 0 {
        0
    } else if s.len() == 1 {
        f(s[0])
    } else {
        let rest = min_of(s.drop_last(), f);
        let last = f(s.last());
        if last < rest {
            last
        } else {
            rest
        }
    }
}

/// The greatest value of `f` across the collection, or 0 when it is empty.
pub open spec fn max_of(s: Seq<Entry>, f: spec_fn(Entry) -> int) -> int
    decreases s.len(),
{
    if s.len() == 0 {
        0
    } else if s.len() == 1 {
        f(s[0])
    } else {
        let rest = max_of(s.drop_last(), f);
        let last = f(s.last());
        if last > rest {
            last
        } else {
            rest
        }
    }
}

/// Bounds on every element carry over to the collection's extrema.
pub proof fn lemma_extrema_within(s: Seq<Entry>, f: spec_fn(Entry) -> int, lo: int, hi: int)
    requires
        s.len() > 0,
        forall|j: int| 0 <= j < s.len() ==> lo <= #[trigger] f(s[j]) <= hi,
    ensures
        lo <= min_of(s, f) <= hi,
        lo <= max_of(s, f) <= hi,
    decreases s.len(),
{
    if s.len() > 1 {
        assert forall|j: int| 0 <= j < s.drop_last().len() implies lo <= #[trigger] f(
            s.drop_last()[j],
        ) <= hi by {
            assert(s.drop_last()[j] == s[j]);
        }
        lemma_extrema_within(s.drop_last(), f, lo, hi);
        assert(lo <= f(s.last()) <= hi);
    }
}

/// The timestamp, as the quantity extrema are taken over.
pub open spec fn time_proj() -> spec_fn(Entry) -> int {
    |e: Entry| e.keyframe.timestamp as int
}

/// Extending a prefix by one element updates its least value pointwise.
pub proof fn lemma_min_of_take_step(s: Seq<Entry>, f: spec_fn(Entry) -> int, i: int)
    requires
        0 <= i < s.len(),
    ensures
        min_of(s.take(i + 1), f) == if i == 0 {
            f(s[0])
        } else {
            let prev = min_of(s.take(i), f);
            if f(s[i]) < prev {
                f(s[i])
            } else {
                prev
            }
        },
{
    let t = s.take(i + 1);
    assert(t.drop_last() =~= s.take(i));
    assert(t.last() == s[i]);
}

/// Extending a prefix by one element updates its greatest value pointwise.
pub proof fn lemma_max_of_take_step(s: Seq<Entry>, f: spec_fn(Entry) -> int, i: int)
    requires
        0 <= i < s.len(),
    ensures
        max_of(s.take(i + 1), f) == if i == 0 {
            f(s[0])
        } else {
            let prev = max_of(s.take(i), f);
            if f(s[i]) > prev {
                f(s[i])
            } else {
                prev
            }
        },
{
    let t = s.take(i + 1);
    assert(t.drop_last() =~= s.take(i));
    assert(t.last() == s[i]);
}

/// Every element lies between the collection's least and greatest values.
pub proof fn lemma_extrema_bound(s: Seq<Entry>, f: spec_fn(Entry) -> int, i: int)
    requires
        0 <= i < s.len(),
    ensures
        min_of(s, f) <= f(s[i]),
        f(s[i]) <= max_of(s, f),
    decreases s.len(),
{
    if s.len() > 1 {
        if i == s.len() - 1 {
            assert(f(s.last()) == f(s[i]));
        } else {
            lemma_extrema_bound(s.drop_last(), f, i);
            assert(s.drop_last()[i] == s[i]);
        }
    }
}

/// The least and greatest value of `f` across the collection, both 0 when it
/// is empty.
pub fn extrema(path: &CameraPath, f: Ghost<spec_fn(Entry) -> int>, read: impl Fn(&Entry) -> i64)
    -> (r: (i64, i64))
    requires
        forall|e: Entry| #[trigger] read.requires((&e,)),
        forall|e: Entry, v: i64| read.ensures((&e,), v) ==> v == f@(e),
    ensures
        r.0 == min_of(path@, f@),
        r.1 == max_of(path@, f@),
{
    let n = path.entries.len();
    if n == 0 {
        proof {
            assert(path@.len() == 0);
        }
        return (0, 0);
    }
    let first = read(&path.entries[0]);
    let mut mn: i64 = first;
    let mut mx: i64 = first;
    proof {
        assert(path@.take(1).len() == 1);
        assert(path@.take(1)[0] == path@[0]);
    }
    let mut i: usize = 1;
    while i < n
        invariant
            n == path@.len(),
            1 <= i <= n,
            forall|e: Entry| #[trigger] read.requires((&e,)),
            forall|e: Entry, v: i64| read.ensures((&e,), v) ==> v == f@(e),
            mn == min_of(path@.take(i as int), f@),
            mx == max_of(path@.take(i as int), f@),
        decreases n - i,
    {
        let v = read(&path.entries[i]);
        proof {
            lemma_min_of_take_step(path@, f@, i as int);
            lemma_max_of_take_step(path@, f@, i as int);
        }
        if v < mn {
            mn = v;
        }
        if v > mx {
            mx = v;
        }
        i += 1;
    }
    proof {
        assert(path@.take(n as int) =~= path@);
    }
    (mn, mx)
}

/// The earliest and latest timestamp in the collection, both 0 when it is
/// empty.
pub fn timestamp_extrema(path: &CameraPath) -> (r: (i64, i64))
    ensures
        r.0 == min_of(path@, time_proj()),
        r.1 == max_of(path@, time_proj()),
{
    extrema(path, Ghost(time_proj()), |e: &Entry| -> (v: i64)
        ensures v == e.keyframe.timestamp,
        { e.keyframe.timestamp })
}

/// The read-only summary of a path.
#[derive(Clone, Copy, PartialEq, Eq, Structural, Debug)]
pub struct PathStats {
    pub keyframe_count: usize,
    pub duration: i64,
    pub min_time: i64,
    pub max_time: i64,
}

/// Counts the keyframes and reports the earliest timestamp, the latest, and
/// their difference as the duration. An empty collection yields all zeroes.
pub fn get_path_stats(path: &CameraPath) -> (st: PathStats)
    ensures
        st.keyframe_count == path@.len(),
        st.min_time == min_of(path@, time_proj()),
        st.max_time == max_of(path@, time_proj()),
        st.duration == clamp_i64(max_of(path@, time_proj()) - min_of(path@, time_proj())),
{
    let (mn, mx) = timestamp_extrema(path);
    let d: i128 = (mx as i128) - (mn as i128);
    let duration: i64 = if d > i64::MAX as i128 {
        i64::MAX
    } else if d < i64::MIN as i128 {
        i64::MIN
    } else {
        d as i64
    };
    PathStats { keyframe_count: path.entries.len(), duration, min_time: mn, max_time: mx }
}

} // verus!
