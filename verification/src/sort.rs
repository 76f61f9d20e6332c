//! Stable, descending sort of the process list by one of its metrics.
//!
//! A stable sort is pinned down by two facts: the result is ordered, and for
//! every value of the sort metric the processes with that value appear in the
//! result exactly as they appeared in the input.

use crate::merge::merge_sort;
use crate::process::Process;
use vstd::prelude::*;

verus! {

/// The metric by which the process list is ordered, largest first.
#[derive(Clone, Copy, Debug, PartialEq, Eq, Structural)]
pub enum SortKey {
    Memory,
    Cpu,
}

/// The value by which `process` is ordered under `key`.
pub open spec fn sort_value(process: Process, key: SortKey) -> u64 {
    match key {
        SortKey::Memory => process.memory_bytes,
        SortKey::Cpu => process.cpu_usage as u64,
    }
}

/// `list` is in descending order of the sort value.
pub open spec fn is_sorted(list: Seq<Process>, key: SortKey) -> bool {
    forall|i: int, j: int|
        0 <= i < j < list.len() ==> sort_value(list[i], key) >= sort_value(list[j], key)
}

/// The predicate "has sort value `value` under `key`".
pub open spec fn has_value(key: SortKey, value: u64) -> spec_fn(Process) -> bool {
    |process: Process| sort_value(process, key) == value
}

/// The processes of `list` whose sort value is `value`, in list order.
pub open spec fn with_value(list: Seq<Process>, key: SortKey, value: u64) -> Seq<Process> {
    list.filter(has_value(key, value))
}

/// `a` and `b` hold, for every sort value, the same processes in the same
/// relative order.
pub open spec fn same_ties(a: Seq<Process>, b: Seq<Process>, key: SortKey) -> bool {
    forall|value: u64| #[trigger] with_value(a, key, value) == with_value(b, key, value)
}

/// `sorted` is the stable descending sort of `list`.
pub open spec fn is_stable_sort(sorted: Seq<Process>, list: Seq<Process>, key: SortKey) -> bool {
    &&& is_sorted(sorted, key)
    &&& same_ties(sorted, list, key)
}

/// The group of one process within the list of that process alone.
pub(crate) proof fn lemma_with_value_single(process: Process, key: SortKey, value: u64)
    ensures
        with_value(seq![process], key, value) == if sort_value(process, key) == value {
            seq![process]
        } else {
            Seq::<Process>::empty()
        },
{
    reveal_with_fuel(Seq::filter, 2);
    assert(seq![process].drop_last() =~= Seq::<Process>::empty());
    assert(Seq::<Process>::empty().push(process) =~= seq![process]);
}

/// The group within a concatenation is the concatenation of the groups.
pub(crate) proof fn lemma_with_value_add(a: Seq<Process>, b: Seq<Process>, key: SortKey, value: u64)
    ensures
        with_value(a + b, key, value) == with_value(a, key, value) + with_value(b, key, value),
{
    Seq::filter_distributes_over_add(a, b, has_value(key, value));
}

/// A sort value that no entry has makes an empty group.
pub(crate) proof fn lemma_with_value_absent(list: Seq<Process>, key: SortKey, value: u64)
    requires
        forall|i: int| 0 <= i < list.len() ==> sort_value(list[i], key) != value,
    ensures
        with_value(list, key, value) == Seq::<Process>::empty(),
{
    list.lemma_all_neg_filter_empty(has_value(key, value));
    assert(with_value(list, key, value) =~= Seq::<Process>::empty());
}

/// Appending a process extends its own group and no other.
proof fn lemma_with_value_push(list: Seq<Process>, process: Process, key: SortKey, value: u64)
    ensures
        with_value(list.push(process), key, value) == if sort_value(process, key) == value {
            with_value(list, key, value).push(process)
        } else {
            with_value(list, key, value)
        },
{
    assert(list.push(process) =~= list + seq![process]);
    lemma_with_value_add(list, seq![process], key, value);
    lemma_with_value_single(process, key, value);
    assert(with_value(list, key, value) + seq![process] =~= with_value(list, key, value).push(
        process,
    ));
    assert(with_value(list, key, value) + Seq::<Process>::empty() =~= with_value(
        list,
        key,
        value,
    ));
}

/// A group that is not empty has its sort value somewhere in the list.
proof fn lemma_value_present(list: Seq<Process>, key: SortKey, value: u64) -> (i: int)
    requires
        with_value(list, key, value).len() > 0,
    ensures
        0 <= i < list.len(),
        sort_value(list[i], key) == value,
{
    let group = with_value(list, key, value);
    list.lemma_filter_pred(has_value(key, value), 0);
    assert(group.contains(group[0]));
    list.lemma_filter_contains_rev(has_value(key, value), group[0]);
    choose|i: int| 0 <= i < list.len() && list[i] == group[0]
}

/// The group of the sort value of an entry is not empty.
proof fn lemma_value_listed(list: Seq<Process>, key: SortKey, i: int)
    requires
        0 <= i < list.len(),
    ensures
        with_value(list, key, sort_value(list[i], key)).len() > 0,
{
    list.lemma_filter_contains(has_value(key, sort_value(list[i], key)), i);
}

/// A process occurs in its group as often as in the whole list.
proof fn lemma_count_in_group(list: Seq<Process>, key: SortKey, process: Process)
    ensures
        with_value(list, key, sort_value(process, key)).to_multiset().count(process)
            == list.to_multiset().count(process),
    decreases list.len(),
{
    broadcast use vstd::seq_lib::group_to_multiset_ensures;

    let value = sort_value(process, key);
    if list.len() == 0 {
        lemma_with_value_absent(list, key, value);
    } else {
        let rest = list.drop_last();
        let last = list.last();
        assert(list =~= rest.push(last));
        lemma_count_in_group(rest, key, process);
        lemma_with_value_push(rest, last, key, value);
    }
}

/// Lists that agree on every group of equal sort values hold the same
/// processes, each as often in one as in the other.
pub proof fn lemma_same_ties_same_processes(a: Seq<Process>, b: Seq<Process>, key: SortKey)
    requires
        same_ties(a, b, key),
    ensures
        a.to_multiset() == b.to_multiset(),
{
    assert forall|process: Process|
        a.to_multiset().count(process) == b.to_multiset().count(process) by {
        lemma_count_in_group(a, key, process);
        lemma_count_in_group(b, key, process);
        assert(with_value(a, key, sort_value(process, key)) == with_value(
            b,
            key,
            sort_value(process, key),
        ));
    }
    assert(a.to_multiset() =~= b.to_multiset());
}

/// Two sorted lists that agree on every group of equal sort values are the
/// same list.
pub proof fn lemma_sorted_lists_equal(a: Seq<Process>, b: Seq<Process>, key: SortKey)
    requires
        is_sorted(a, key),
        is_sorted(b, key),
        same_ties(a, b, key),
    ensures
        a == b,
    decreases a.len(),
{
    if a.len() == 0 || b.len() == 0 {
        if a.len() > 0 {
            lemma_value_listed(a, key, 0);
            lemma_with_value_absent(b, key, sort_value(a[0], key));
            assert(with_value(a, key, sort_value(a[0], key)) == with_value(
                b,
                key,
                sort_value(a[0], key),
            ));
        }
        if b.len() > 0 {
            lemma_value_listed(b, key, 0);
            lemma_with_value_absent(a, key, sort_value(b[0], key));
            assert(with_value(a, key, sort_value(b[0], key)) == with_value(
                b,
                key,
                sort_value(b[0], key),
            ));
        }
        assert(a =~= b);
    } else {
        let a_rest = a.drop_last();
        let b_rest = b.drop_last();
        let low_a = sort_value(a.last(), key);
        let low_b = sort_value(b.last(), key);
        assert(a =~= a_rest.push(a.last()));
        assert(b =~= b_rest.push(b.last()));
        // The last entries carry the smallest sort value of either list.
        lemma_value_listed(a, key, a.len() - 1);
        assert(with_value(a, key, low_a) == with_value(b, key, low_a));
        let ib = lemma_value_present(b, key, low_a);
        lemma_value_listed(b, key, b.len() - 1);
        assert(with_value(a, key, low_b) == with_value(b, key, low_b));
        let ia = lemma_value_present(a, key, low_b);
        assert(low_a == low_b);
        lemma_with_value_push(a_rest, a.last(), key, low_a);
        lemma_with_value_push(b_rest, b.last(), key, low_a);
        assert(with_value(a, key, low_a).last() == a.last());
        assert(with_value(b, key, low_a).last() == b.last());
        assert(a.last() == b.last());
        assert forall|value: u64| #[trigger]
            with_value(a_rest, key, value) == with_value(b_rest, key, value) by {
            lemma_with_value_push(a_rest, a.last(), key, value);
            lemma_with_value_push(b_rest, b.last(), key, value);
            assert(with_value(a, key, value) == with_value(b, key, value));
            if value == low_a {
                assert(with_value(a_rest, key, value) =~= with_value(a, key, value).drop_last());
                assert(with_value(b_rest, key, value) =~= with_value(b, key, value).drop_last());
            }
        }
        assert(is_sorted(a_rest, key)) by {
            assert forall|i: int, j: int| 0 <= i < j < a_rest.len() implies sort_value(
                a_rest[i],
                key,
            ) >= sort_value(a_rest[j], key) by {
                assert(a_rest[i] == a[i] && a_rest[j] == a[j]);
            }
        }
        assert(is_sorted(b_rest, key)) by {
            assert forall|i: int, j: int| 0 <= i < j < b_rest.len() implies sort_value(
                b_rest[i],
                key,
            ) >= sort_value(b_rest[j], key) by {
                assert(b_rest[i] == b[i] && b_rest[j] == b[j]);
            }
        }
        lemma_sorted_lists_equal(a_rest, b_rest, key);
    }
}

/// Sorting is deterministic, and the order of the listing matters only among
/// equal sort values: two listings have the same stable sort exactly if they
/// list every group of equal sort values in the same order. In particular
/// one listing sorted twice gives the same list twice.
pub proof fn lemma_stable_sort_unique(
    first: Seq<Process>,
    second: Seq<Process>,
    first_sorted: Seq<Process>,
    second_sorted: Seq<Process>,
    key: SortKey,
)
    requires
        is_stable_sort(first_sorted, first, key),
        is_stable_sort(second_sorted, second, key),
    ensures
        first_sorted == second_sorted <==> same_ties(first, second, key),
        first == second ==> first_sorted == second_sorted,
{
    if same_ties(first, second, key) {
        assert forall|value: u64| #[trigger]
            with_value(first_sorted, key, value) == with_value(second_sorted, key, value) by {
            assert(with_value(first_sorted, key, value) == with_value(first, key, value));
            assert(with_value(first, key, value) == with_value(second, key, value));
            assert(with_value(second_sorted, key, value) == with_value(second, key, value));
        }
        lemma_sorted_lists_equal(first_sorted, second_sorted, key);
    }
    if first_sorted == second_sorted {
        assert forall|value: u64| #[trigger]
            with_value(first, key, value) == with_value(second, key, value) by {
            assert(with_value(first_sorted, key, value) == with_value(first, key, value));
            assert(with_value(second_sorted, key, value) == with_value(second, key, value));
        }
    }
}

/// No two entries of `list` have the same sort value.
pub open spec fn distinct_values(list: Seq<Process>, key: SortKey) -> bool {
    forall|i: int, j: int|
        0 <= i < j < list.len() ==> sort_value(list[i], key) != sort_value(list[j], key)
}

/// Without equal sort values no group has more than one entry.
proof fn lemma_distinct_group_small(list: Seq<Process>, key: SortKey, value: u64)
    requires
        distinct_values(list, key),
    ensures
        with_value(list, key, value).len() <= 1,
    decreases list.len(),
{
    if list.len() == 0 {
        lemma_with_value_absent(list, key, value);
    } else {
        let rest = list.drop_last();
        assert(list =~= rest.push(list.last()));
        assert(distinct_values(rest, key)) by {
            assert forall|i: int, j: int| 0 <= i < j < rest.len() implies sort_value(rest[i], key)
                != sort_value(rest[j], key) by {
                assert(rest[i] == list[i] && rest[j] == list[j]);
            }
        }
        lemma_distinct_group_small(rest, key, value);
        lemma_with_value_push(rest, list.last(), key, value);
        if sort_value(list.last(), key) == value && with_value(rest, key, value).len() > 0 {
            let i = lemma_value_present(rest, key, value);
            assert(rest[i] == list[i]);
            assert(sort_value(list[i], key) == sort_value(list[list.len() - 1], key));
        }
    }
}

/// A process does not occur in the group of another sort value.
proof fn lemma_count_outside_group(
    list: Seq<Process>,
    key: SortKey,
    value: u64,
    process: Process,
)
    requires
        sort_value(process, key) != value,
    ensures
        with_value(list, key, value).to_multiset().count(process) == 0,
{
    broadcast use vstd::seq_lib::group_to_multiset_ensures;

    let group = with_value(list, key, value);
    if group.contains(process) {
        let i = choose|i: int| 0 <= i < group.len() && group[i] == process;
        list.lemma_filter_pred(has_value(key, value), i);
    }
}

/// Where no two processes have the same sort value, the order in which they
/// are listed does not matter: two listings of the same processes agree on
/// every group of equal sort values, and so have the same stable sort.
pub proof fn lemma_listing_order_irrelevant(a: Seq<Process>, b: Seq<Process>, key: SortKey)
    requires
        a.to_multiset() == b.to_multiset(),
        distinct_values(a, key),
    ensures
        same_ties(a, b, key),
{
    broadcast use vstd::seq_lib::group_to_multiset_ensures;

    assert forall|value: u64| #[trigger]
        with_value(a, key, value) == with_value(b, key, value) by {
        let in_a = with_value(a, key, value);
        let in_b = with_value(b, key, value);
        assert forall|process: Process|
            in_a.to_multiset().count(process) == in_b.to_multiset().count(process) by {
            if sort_value(process, key) == value {
                lemma_count_in_group(a, key, process);
                lemma_count_in_group(b, key, process);
            } else {
                lemma_count_outside_group(a, key, value, process);
                lemma_count_outside_group(b, key, value, process);
            }
        }
        assert(in_a.to_multiset() =~= in_b.to_multiset());
        in_a.to_multiset_ensures();
        in_b.to_multiset_ensures();
        assert(in_a.len() == in_a.to_multiset().len());
        assert(in_b.len() == in_b.to_multiset().len());
        lemma_distinct_group_small(a, key, value);
        if in_a.len() == 1 {
            assert(in_a.contains(in_a[0]));
            assert(in_b.to_multiset().count(in_a[0]) > 0);
            assert(in_b.contains(in_a[0]));
            assert(in_b[0] == in_a[0]);
        }
        assert(in_a =~= in_b);
    }
}

/// A sorted list is its own stable sort: sorting again changes nothing.
pub proof fn lemma_sorted_is_fixed(list: Seq<Process>, sorted: Seq<Process>, key: SortKey)
    requires
        is_sorted(list, key),
        is_stable_sort(sorted, list, key),
    ensures
        sorted == list,
{
    lemma_sorted_lists_equal(sorted, list, key);
}

/// Sorts `processes` by `key`, largest first. The sort is stable: processes
/// with equal sort values keep their relative order.
pub fn sort_processes(processes: &mut Vec<Process>, key: SortKey)
    ensures
        is_stable_sort(final(processes)@, old(processes)@, key),
        final(processes)@.len() == old(processes)@.len(),
        final(processes)@.to_multiset() == old(processes)@.to_multiset(),
{
    let mut list: Vec<Process> = Vec::new();
    core::mem::swap(processes, &mut list);
    let mut sorted = merge_sort(list, key);
    core::mem::swap(processes, &mut sorted);
    proof {
        lemma_same_ties_same_processes(final(processes)@, old(processes)@, key);
    }
}

/// Sorts `processes` by memory, largest first, keeping the relative order of
/// processes with equal memory.
pub fn sort_by_memory(processes: &mut Vec<Process>)
    ensures
        is_stable_sort(final(processes)@, old(processes)@, SortKey::Memory),
        forall|i: int, j: int|
            0 <= i < j < final(processes)@.len() ==> final(processes)@[i].memory_bytes
                >= final(processes)@[j].memory_bytes,
        final(processes)@.len() == old(processes)@.len(),
        final(processes)@.to_multiset() == old(processes)@.to_multiset(),
{
    sort_processes(processes, SortKey::Memory);
}

/// Sorts `processes` by CPU usage, largest first, keeping the relative order
/// of processes with equal usage.
pub fn _sort_by_cpu(processes: &mut Vec<Process>)
    ensures
        is_stable_sort(final(processes)@, old(processes)@, SortKey::Cpu),
        forall|i: int, j: int|
            0 <= i < j < final(processes)@.len() ==> final(processes)@[i].cpu_usage
                >= final(processes)@[j].cpu_usage,
        final(processes)@.len() == old(processes)@.len(),
        final(processes)@.to_multiset() == old(processes)@.to_multiset(),
{
    sort_processes(processes, SortKey::Cpu);
}

} // verus!
