//! Merge sort of the process list, built from the merge of two sorted lists.

use crate::process::Process;
use crate::sort::{
    is_sorted, is_stable_sort, lemma_with_value_absent, lemma_with_value_add,
    lemma_with_value_single, sort_value, with_value, SortKey,
};
use vstd::prelude::*;

verus! {

/// Reads the value by which `process` is ordered under `key`.
fn value_of(process: &Process, key: SortKey) -> (r: u64)
    ensures
        r == sort_value(*process, key),
{
    match key {
        SortKey::Memory => process.memory_bytes,
        SortKey::Cpu => process.cpu_usage as u64,
    }
}

/// A merge of the sorted lists `left` and `right` in progress, built from
/// the back: the first `li` and `ri` entries are still to be merged, and
/// `tail` is the finished end of the result.
spec fn merging(
    left: Seq<Process>,
    right: Seq<Process>,
    li: int,
    ri: int,
    tail: Seq<Process>,
    key: SortKey,
) -> bool {
    &&& 0 <= li <= left.len()
    &&& 0 <= ri <= right.len()
    &&& is_sorted(left, key)
    &&& is_sorted(right, key)
    &&& is_sorted(tail, key)
    &&& tail.len() == (left.len() - li) + (right.len() - ri)
    &&& forall|i: int, j: int|
        0 <= i < li && 0 <= j < tail.len() ==> sort_value(left[i], key) >= sort_value(
            tail[j],
            key,
        )
    &&& forall|i: int, j: int|
        0 <= i < ri && 0 <= j < tail.len() ==> sort_value(right[i], key) >= sort_value(
            tail[j],
            key,
        )
    &&& forall|value: u64| #[trigger]
        with_value(tail, key, value) == with_value(left.subrange(li, left.len() as int), key, value)
            + with_value(right.subrange(ri, right.len() as int), key, value)
    &&& ri > 0 ==> forall|i: int|
        li <= i < left.len() ==> sort_value(left[i], key) < sort_value(right[ri - 1], key)
}

/// Before the first step nothing is merged and the end is empty.
proof fn lemma_merge_start(left: Seq<Process>, right: Seq<Process>, key: SortKey)
    requires
        is_sorted(left, key),
        is_sorted(right, key),
    ensures
        merging(left, right, left.len() as int, right.len() as int, Seq::empty(), key),
{
    assert forall|value: u64| #[trigger]
        with_value(Seq::<Process>::empty(), key, value) == with_value(
            left.subrange(left.len() as int, left.len() as int),
            key,
            value,
        ) + with_value(right.subrange(right.len() as int, right.len() as int), key, value) by {
        lemma_with_value_absent(Seq::<Process>::empty(), key, value);
        lemma_with_value_absent(left.subrange(left.len() as int, left.len() as int), key, value);
        lemma_with_value_absent(
            right.subrange(right.len() as int, right.len() as int),
            key,
            value,
        );
    }
}

/// A step that takes the last unmerged entry of `left`, whose sort value is
/// below that of the last unmerged entry of `right`.
proof fn lemma_merge_take_left(
    left: Seq<Process>,
    right: Seq<Process>,
    li: int,
    ri: int,
    tail: Seq<Process>,
    key: SortKey,
)
    requires
        merging(left, right, li, ri, tail, key),
        li > 0,
        ri > 0,
        sort_value(left[li - 1], key) < sort_value(right[ri - 1], key),
    ensures
        merging(left, right, li - 1, ri, seq![left[li - 1]] + tail, key),
{
    let x = left[li - 1];
    let next = seq![x] + tail;
    assert forall|value: u64| #[trigger]
        with_value(next, key, value) == with_value(
            left.subrange(li - 1, left.len() as int),
            key,
            value,
        ) + with_value(right.subrange(ri, right.len() as int), key, value) by {
        lemma_with_value_add(seq![x], tail, key, value);
        assert(left.subrange(li - 1, left.len() as int) =~= seq![x] + left.subrange(
            li,
            left.len() as int,
        ));
        lemma_with_value_add(seq![x], left.subrange(li, left.len() as int), key, value);
        assert(with_value(tail, key, value) == with_value(
            left.subrange(li, left.len() as int),
            key,
            value,
        ) + with_value(right.subrange(ri, right.len() as int), key, value));
        assert(with_value(next, key, value) =~= with_value(
            left.subrange(li - 1, left.len() as int),
            key,
            value,
        ) + with_value(right.subrange(ri, right.len() as int), key, value));
    }
    assert(is_sorted(next, key)) by {
        assert forall|i: int, j: int| 0 <= i < j < next.len() implies sort_value(next[i], key)
            >= sort_value(next[j], key) by {
            if i > 0 {
                assert(next[i] == tail[i - 1] && next[j] == tail[j - 1]);
            } else {
                assert(next[j] == tail[j - 1]);
            }
        }
    }
    assert forall|i: int, j: int| 0 <= i < li - 1 && 0 <= j < next.len() implies sort_value(
        left[i],
        key,
    ) >= sort_value(next[j], key) by {
        if j > 0 {
            assert(next[j] == tail[j - 1]);
        }
    }
    assert forall|i: int, j: int| 0 <= i < ri && 0 <= j < next.len() implies sort_value(
        right[i],
        key,
    ) >= sort_value(next[j], key) by {
        if j > 0 {
            assert(next[j] == tail[j - 1]);
        }
    }
}

/// A step that takes the last unmerged entry of `right`, whose sort value
/// is at most that of the last unmerged entry of `left`.
proof fn lemma_merge_take_right(
    left: Seq<Process>,
    right: Seq<Process>,
    li: int,
    ri: int,
    tail: Seq<Process>,
    key: SortKey,
)
    requires
        merging(left, right, li, ri, tail, key),
        li > 0,
        ri > 0,
        sort_value(left[li - 1], key) >= sort_value(right[ri - 1], key),
    ensures
        merging(left, right, li, ri - 1, seq![right[ri - 1]] + tail, key),
{
    let y = right[ri - 1];
    let next = seq![y] + tail;
    let left_done = left.subrange(li, left.len() as int);
    let right_done = right.subrange(ri, right.len() as int);
    assert forall|value: u64| #[trigger]
        with_value(next, key, value) == with_value(left_done, key, value) + with_value(
            right.subrange(ri - 1, right.len() as int),
            key,
            value,
        ) by {
        lemma_with_value_add(seq![y], tail, key, value);
        assert(right.subrange(ri - 1, right.len() as int) =~= seq![y] + right_done);
        lemma_with_value_add(seq![y], right_done, key, value);
        lemma_with_value_single(y, key, value);
        assert(with_value(tail, key, value) == with_value(left_done, key, value) + with_value(
            right_done,
            key,
            value,
        ));
        if sort_value(y, key) == value {
            lemma_with_value_absent(left_done, key, value);
        }
        assert(with_value(next, key, value) =~= with_value(left_done, key, value) + with_value(
            right.subrange(ri - 1, right.len() as int),
            key,
            value,
        ));
    }
    assert(is_sorted(next, key)) by {
        assert forall|i: int, j: int| 0 <= i < j < next.len() implies sort_value(next[i], key)
            >= sort_value(next[j], key) by {
            if i > 0 {
                assert(next[i] == tail[i - 1] && next[j] == tail[j - 1]);
            } else {
                assert(next[j] == tail[j - 1]);
            }
        }
    }
    assert forall|i: int, j: int| 0 <= i < li && 0 <= j < next.len() implies sort_value(
        left[i],
        key,
    ) >= sort_value(next[j], key) by {
        if j > 0 {
            assert(next[j] == tail[j - 1]);
        }
    }
    assert forall|i: int, j: int| 0 <= i < ri - 1 && 0 <= j < next.len() implies sort_value(
        right[i],
        key,
    ) >= sort_value(next[j], key) by {
        if j > 0 {
            assert(next[j] == tail[j - 1]);
        }
    }
}

/// Once one list is used up, what is left of the other, followed by the
/// finished end, is the whole merge.
proof fn lemma_merge_finish(
    left: Seq<Process>,
    right: Seq<Process>,
    li: int,
    ri: int,
    tail: Seq<Process>,
    key: SortKey,
)
    requires
        merging(left, right, li, ri, tail, key),
        li == 0 || ri == 0,
    ensures
        ({
            let merged = left.subrange(0, li) + right.subrange(0, ri) + tail;
            &&& is_sorted(merged, key)
            &&& merged.len() == left.len() + right.len()
            &&& forall|value: u64| #[trigger]
                with_value(merged, key, value) == with_value(left, key, value) + with_value(
                    right,
                    key,
                    value,
                )
        }),
{
    let left_head = left.subrange(0, li);
    let right_head = right.subrange(0, ri);
    let left_done = left.subrange(li, left.len() as int);
    let right_done = right.subrange(ri, right.len() as int);
    let head = left_head + right_head;
    let merged = head + tail;
    assert(left =~= left_head + left_done);
    assert(right =~= right_head + right_done);
    assert forall|value: u64| #[trigger]
        with_value(merged, key, value) == with_value(left, key, value) + with_value(
            right,
            key,
            value,
        ) by {
        lemma_with_value_add(head, tail, key, value);
        lemma_with_value_add(left_head, right_head, key, value);
        lemma_with_value_add(left_head, left_done, key, value);
        lemma_with_value_add(right_head, right_done, key, value);
        assert(with_value(tail, key, value) == with_value(left_done, key, value) + with_value(
            right_done,
            key,
            value,
        ));
        if ri == 0 {
            lemma_with_value_absent(right_head, key, value);
        } else {
            lemma_with_value_absent(left_head, key, value);
            if value < sort_value(right[ri - 1], key) {
                assert forall|i: int| 0 <= i < right_head.len() implies sort_value(
                    right_head[i],
                    key,
                ) != value by {
                    assert(right_head[i] == right[i]);
                }
                lemma_with_value_absent(right_head, key, value);
            } else {
                lemma_with_value_absent(left_done, key, value);
            }
        }
        assert(with_value(merged, key, value) =~= with_value(left, key, value) + with_value(
            right,
            key,
            value,
        ));
    }
    assert forall|i: int, j: int| 0 <= i < j < merged.len() implies sort_value(merged[i], key)
        >= sort_value(merged[j], key) by {
        if j < head.len() {
            if ri == 0 {
                assert(merged[i] == left[i] && merged[j] == left[j]);
            } else {
                assert(merged[i] == right[i] && merged[j] == right[j]);
            }
        } else if i < head.len() {
            assert(merged[j] == tail[j - head.len()]);
            if ri == 0 {
                assert(merged[i] == left[i]);
            } else {
                assert(merged[i] == right[i]);
            }
        } else {
            assert(merged[i] == tail[i - head.len()] && merged[j] == tail[j - head.len()]);
        }
    }
}

/// Merges two sorted lists into one; among equal sort values the entries of
/// `left` come before those of `right`.
fn merge(left: Vec<Process>, right: Vec<Process>, key: SortKey) -> (merged: Vec<Process>)
    requires
        is_sorted(left@, key),
        is_sorted(right@, key),
    ensures
        is_sorted(merged@, key),
        merged@.len() == left@.len() + right@.len(),
        forall|value: u64| #[trigger]
            with_value(merged@, key, value) == with_value(left@, key, value) + with_value(
                right@,
                key,
                value,
            ),
{
    let ghost left_all = left@;
    let ghost right_all = right@;
    let mut left = left;
    let mut right = right;
    // The end of the result, last entry first.
    let mut tail: Vec<Process> = Vec::new();
    proof {
        lemma_merge_start(left_all, right_all, key);
        assert(tail@.reverse() =~= Seq::<Process>::empty());
    }
    while left.len() > 0 && right.len() > 0
        invariant
            left@.len() <= left_all.len(),
            right@.len() <= right_all.len(),
            left@ == left_all.subrange(0, left@.len() as int),
            right@ == right_all.subrange(0, right@.len() as int),
            merging(
                left_all,
                right_all,
                left@.len() as int,
                right@.len() as int,
                tail@.reverse(),
                key,
            ),
        decreases left@.len() + right@.len(),
    {
        let ghost li = left@.len() as int;
        let ghost ri = right@.len() as int;
        let ghost done = tail@.reverse();
        let from_left = value_of(&left[left.len() - 1], key) < value_of(
            &right[right.len() - 1],
            key,
        );
        if from_left {
            proof {
                lemma_merge_take_left(left_all, right_all, li, ri, done, key);
            }
            let entry = left.pop().unwrap();
            tail.push(entry);
            assert(tail@.reverse() =~= seq![left_all[li - 1]] + done);
            assert(left@ =~= left_all.subrange(0, li - 1));
        } else {
            proof {
                lemma_merge_take_right(left_all, right_all, li, ri, done, key);
            }
            let entry = right.pop().unwrap();
            tail.push(entry);
            assert(tail@.reverse() =~= seq![right_all[ri - 1]] + done);
            assert(right@ =~= right_all.subrange(0, ri - 1));
        }
    }
    let ghost result = left@ + right@ + tail@.reverse();
    proof {
        lemma_merge_finish(
            left_all,
            right_all,
            left@.len() as int,
            right@.len() as int,
            tail@.reverse(),
            key,
        );
    }
    left.append(&mut right);
    while tail.len() > 0
        invariant
            left@ + tail@.reverse() == result,
        decreases tail@.len(),
    {
        let ghost before = left@;
        let ghost rest = tail@;
        let entry = tail.pop().unwrap();
        left.push(entry);
        assert(left@ + tail@.reverse() =~= before + rest.reverse());
    }
    assert(left@ =~= left@ + tail@.reverse());
    left
}

/// Sorts `list` by `key`, largest first, keeping the relative order of
/// entries with equal sort values.
pub(crate) fn merge_sort(list: Vec<Process>, key: SortKey) -> (sorted: Vec<Process>)
    ensures
        is_stable_sort(sorted@, list@, key),
        sorted@.len() == list@.len(),
    decreases list@.len(),
{
    if list.len() <= 1 {
        return list;
    }
    let ghost all = list@;
    let mut left = list;
    let middle = left.len() / 2;
    let right = left.split_off(middle);
    let ghost left_part = left@;
    let ghost right_part = right@;
    let left = merge_sort(left, key);
    let right = merge_sort(right, key);
    let merged = merge(left, right, key);
    proof {
        assert(all =~= left_part + right_part);
        assert forall|value: u64| #[trigger]
            with_value(merged@, key, value) == with_value(all, key, value) by {
            lemma_with_value_add(left_part, right_part, key, value);
        }
    }
    merged
}

} // verus!
