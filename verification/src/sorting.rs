//! Stable sorting of entries by timestamp. The mapping implies no order, so
//! every transform that needs temporal order sorts explicitly; ties keep the
//! entries' original relative order.

use vstd::prelude::*;
use vstd::seq_lib::group_seq_properties;
use crate::model::{clone_entry, CameraPath, Entry};

verus! {

/// Entries stand in ascending timestamp order.
pub open spec fn sorted_by_time(s: Seq<Entry>) -> bool {
    forall|i: int, j: int|
        0 <= i < j < s.len() ==> s[i].keyframe.timestamp <= s[j].keyframe.timestamp
}

/// `e` placed before the first entry with a strictly later timestamp, so
/// after every entry whose timestamp ties with its own.
pub open spec fn insert_by_time(e: Entry, s: Seq<Entry>) -> Seq<Entry>
    decreases s.len(),
{
    if s.len() == 0 {
        seq![e]
    } else if e.keyframe.timestamp < s[0].keyframe.timestamp {
        seq![e] + s
    } else {
        seq![s[0]] + insert_by_time(e, s.drop_first())
    }
}

/// The stable sort of the entries by timestamp: each entry in turn inserted
/// after its ties, so equal timestamps keep their original relative order.
pub open spec fn sort_by_time(s: Seq<Entry>) -> Seq<Entry>
    decreases s.len(),
{
    if s.len() == 0 {
        Seq::<Entry>::empty()
    } else {
        insert_by_time(s.last(), sort_by_time(s.drop_last()))
    }
}

/// Insertion grows the length by one.
pub proof fn lemma_insert_by_time_len(e: Entry, s: Seq<Entry>)
    ensures
        insert_by_time(e, s).len() == s.len() + 1,
    decreases s.len(),
{
    if s.len() != 0 && !(e.keyframe.timestamp < s[0].keyframe.timestamp) {
        lemma_insert_by_time_len(e, s.drop_first());
    }
}

/// Sorting keeps the length.
pub proof fn lemma_sort_by_time_len(s: Seq<Entry>)
    ensures
        sort_by_time(s).len() == s.len(),
    decreases s.len(),
{
    if s.len() != 0 {
        lemma_sort_by_time_len(s.drop_last());
        lemma_insert_by_time_len(s.last(), sort_by_time(s.drop_last()));
    }
}

/// Where the insertion point is known — every earlier entry ties or is
/// earlier, the entry at the point (if any) is strictly later — insertion is
/// the splice at that point.
pub proof fn lemma_insert_by_time_at(e: Entry, s: Seq<Entry>, pos: int)
    requires
        0 <= pos <= s.len(),
        forall|j: int|
            0 <= j < pos ==> s[j].keyframe.timestamp <= e.keyframe.timestamp,
        pos < s.len() ==> e.keyframe.timestamp < s[pos].keyframe.timestamp,
    ensures
        insert_by_time(e, s) == s.take(pos) + seq![e] + s.skip(pos),
    decreases s.len(),
{
    if pos == 0 {
        if s.len() == 0 {
            assert(insert_by_time(e, s) =~= s.take(0) + seq![e] + s.skip(0));
        } else {
            assert(insert_by_time(e, s) =~= s.take(0) + seq![e] + s.skip(0));
        }
    } else {
        let rest = s.drop_first();
        assert(forall|j: int|
            0 <= j < pos - 1 ==> rest[j].keyframe.timestamp <= e.keyframe.timestamp);
        lemma_insert_by_time_at(e, rest, pos - 1);
        assert(seq![s[0]] + (rest.take(pos - 1) + seq![e] + rest.skip(pos - 1)) =~= s.take(pos)
            + seq![e] + s.skip(pos));
    }
}

/// Insertion keeps every lower bound on the timestamps.
proof fn lemma_insert_by_time_lower_bound(e: Entry, s: Seq<Entry>, b: i64)
    requires
        b <= e.keyframe.timestamp,
        forall|j: int| 0 <= j < s.len() ==> b <= s[j].keyframe.timestamp,
    ensures
        forall|j: int|
            0 <= j < insert_by_time(e, s).len() ==> b <= insert_by_time(e, s)[j].keyframe.timestamp,
    decreases s.len(),
{
    if s.len() != 0 && !(e.keyframe.timestamp < s[0].keyframe.timestamp) {
        let rest = s.drop_first();
        assert forall|j: int| 0 <= j < rest.len() implies b <= rest[j].keyframe.timestamp by {
            assert(rest[j] == s[j + 1]);
        }
        lemma_insert_by_time_lower_bound(e, rest, b);
        let r = insert_by_time(e, rest);
        assert forall|j: int|
            0 <= j < insert_by_time(e, s).len() implies b <= insert_by_time(
            e,
            s,
        )[j].keyframe.timestamp by {
            assert(insert_by_time(e, s) == seq![s[0]] + r);
            if j > 0 {
                assert((seq![s[0]] + r)[j] == r[j - 1]);
            }
        }
    }
}

/// Insertion into a sorted sequence keeps it sorted.
pub proof fn lemma_insert_by_time_sorted(e: Entry, s: Seq<Entry>)
    requires
        sorted_by_time(s),
    ensures
        sorted_by_time(insert_by_time(e, s)),
    decreases s.len(),
{
    if s.len() != 0 && !(e.keyframe.timestamp < s[0].keyframe.timestamp) {
        let rest = s.drop_first();
        lemma_insert_by_time_sorted(e, rest);
        lemma_insert_by_time_lower_bound(e, rest, s[0].keyframe.timestamp);
        lemma_insert_by_time_len(e, rest);
    }
}

/// The stable sort is sorted.
pub proof fn lemma_sort_by_time_sorted(s: Seq<Entry>)
    ensures
        sorted_by_time(sort_by_time(s)),
    decreases s.len(),
{
    if s.len() != 0 {
        lemma_sort_by_time_sorted(s.drop_last());
        lemma_insert_by_time_sorted(s.last(), sort_by_time(s.drop_last()));
    }
}

/// Insertion adds exactly the inserted entry to the contents.
pub proof fn lemma_insert_by_time_multiset(e: Entry, s: Seq<Entry>)
    ensures
        insert_by_time(e, s).to_multiset() == s.to_multiset().insert(e),
    decreases s.len(),
{
    broadcast use group_seq_properties;

    if s.len() == 0 {
        assert(insert_by_time(e, s) =~= Seq::<Entry>::empty().push(e));
        assert(Seq::<Entry>::empty().push(e).to_multiset() =~= s.to_multiset().insert(e));
    } else if e.keyframe.timestamp < s[0].keyframe.timestamp {
        assert(seq![e] + s =~= (seq![e] + s.drop_last()).push(s.last()));
        lemma_prepend_multiset(e, s);
    } else {
        let rest = s.drop_first();
        lemma_insert_by_time_multiset(e, rest);
        assert(seq![s[0]] + insert_by_time(e, rest) =~= insert_by_time(e, rest).insert(
            0,
            s[0],
        ));
        assert((seq![s[0]] + insert_by_time(e, rest)).to_multiset() =~= insert_by_time(
            e,
            rest,
        ).to_multiset().insert(s[0])) by {
            lemma_prepend_multiset(s[0], insert_by_time(e, rest));
        }
        assert(s =~= rest.insert(0, s[0]));
        lemma_prepend_multiset(s[0], rest);
        assert(seq![s[0]] + rest =~= s);
        assert(s.to_multiset().insert(e) =~= rest.to_multiset().insert(s[0]).insert(e));
    }
}

/// Prefixing one entry inserts it into the contents.
proof fn lemma_prepend_multiset(e: Entry, s: Seq<Entry>)
    ensures
        (seq![e] + s).to_multiset() == s.to_multiset().insert(e),
    decreases s.len(),
{
    broadcast use group_seq_properties;

    if s.len() == 0 {
        assert(seq![e] + s =~= Seq::<Entry>::empty().push(e));
    } else {
        lemma_prepend_multiset(e, s.drop_last());
        assert(seq![e] + s =~= (seq![e] + s.drop_last()).push(s.last()));
        assert(s =~= s.drop_last().push(s.last()));
        assert(s.to_multiset() =~= s.drop_last().to_multiset().insert(s.last()));
        assert((seq![e] + s).to_multiset() =~= (seq![e] + s.drop_last()).to_multiset().insert(
            s.last(),
        ));
        assert(s.drop_last().to_multiset().insert(e).insert(s.last()) =~= s.drop_last()
            .to_multiset().insert(s.last()).insert(e));
    }
}

/// The stable sort is a permutation: it keeps the contents, entry for entry.
pub proof fn lemma_sort_by_time_multiset(s: Seq<Entry>)
    ensures
        sort_by_time(s).to_multiset() == s.to_multiset(),
    decreases s.len(),
{
    broadcast use group_seq_properties;

    if s.len() != 0 {
        lemma_sort_by_time_multiset(s.drop_last());
        lemma_insert_by_time_multiset(s.last(), sort_by_time(s.drop_last()));
        assert(s =~= s.drop_last().push(s.last()));
        assert(s.to_multiset() =~= s.drop_last().to_multiset().insert(s.last()));
    }
}

/// The entries in ascending timestamp order, ties keeping their original
/// relative order.
pub fn sort_entries(path: &CameraPath) -> (out: Vec<Entry>)
    ensures
        out@ == sort_by_time(path@),
        out@.len() == path@.len(),
        sorted_by_time(out@),
{
    let n = path.entries.len();
    let mut out: Vec<Entry> = Vec::new();
    let mut i: usize = 0;
    proof {
        assert(path@.take(0) =~= Seq::<Entry>::empty());
    }
    while i < n
        invariant
            n == path@.len(),
            i <= n,
            out@ == sort_by_time(path@.take(i as int)),
            out@.len() == i,
        decreases n - i,
    {
        let e = clone_entry(&path.entries[i]);
        let mut pos: usize = 0;
        while pos < out.len() && out[pos].keyframe.timestamp <= e.keyframe.timestamp
            invariant
                pos <= out@.len(),
                e == path@[i as int],
                forall|k: int|
                    0 <= k < pos ==> out@[k].keyframe.timestamp <= e.keyframe.timestamp,
            decreases out@.len() - pos,
        {
            pos += 1;
        }
        proof {
            lemma_insert_by_time_at(e, out@, pos as int);
            let t = path@.take(i + 1);
            assert(t.drop_last() =~= path@.take(i as int));
            assert(t.last() == path@[i as int]);
            lemma_insert_by_time_len(e, out@);
        }
        let ghost before = out@;
        out.insert(pos, e);
        proof {
            assert(out@ =~= before.take(pos as int) + seq![e] + before.skip(pos as int));
        }
        i += 1;
    }
    proof {
        assert(path@.take(n as int) =~= path@);
        lemma_sort_by_time_len(path@);
        lemma_sort_by_time_sorted(path@);
    }
    out
}

} // verus!
