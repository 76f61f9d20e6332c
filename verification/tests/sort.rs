use sysmon::process::{Process, ProcessStatus};
use sysmon::sort::{_sort_by_cpu, sort_by_memory, sort_processes, SortKey};

fn process(pid: u32, cpu_usage: u32, memory_bytes: u64) -> Process {
    Process {
        pid,
        name: format!("p{}", pid),
        cpu_usage,
        memory_bytes,
        status: ProcessStatus::Running,
        parent_pid: None,
    }
}

fn pids(processes: &[Process]) -> Vec<u32> {
    processes.iter().map(|p| p.pid).collect()
}

/// A fixed pseudo-random list with many equal sort values.
fn scrambled(count: u32) -> Vec<Process> {
    let mut state: u64 = 0x2545_f491_4f6c_dd1d;
    let mut list = Vec::new();
    for pid in 0..count {
        state ^= state << 13;
        state ^= state >> 7;
        state ^= state << 17;
        list.push(process(pid, (state % 7) as u32 * 100, (state >> 8) % 11 * 4096));
    }
    list
}

#[test]
fn sort_by_memory_orders_largest_first() {
    let mut list = vec![process(1, 0, 300), process(2, 0, 100), process(3, 0, 900), process(4, 0, 500)];
    sort_by_memory(&mut list);
    assert_eq!(pids(&list), vec![3, 4, 1, 2]);
    for pair in list.windows(2) {
        assert!(pair[0].memory_bytes >= pair[1].memory_bytes);
    }
}

#[test]
fn sort_by_memory_is_descending_on_a_scrambled_list() {
    let mut list = scrambled(500);
    sort_by_memory(&mut list);
    assert_eq!(list.len(), 500);
    for i in 0..list.len() {
        for j in i + 1..list.len() {
            assert!(list[i].memory_bytes >= list[j].memory_bytes);
        }
    }
}

#[test]
fn sort_by_memory_keeps_the_order_of_ties() {
    let mut list = vec![
        process(1, 0, 100),
        process(2, 0, 200),
        process(3, 0, 100),
        process(4, 0, 200),
        process(5, 0, 100),
    ];
    sort_by_memory(&mut list);
    assert_eq!(pids(&list), vec![2, 4, 1, 3, 5]);
}

#[test]
fn sort_agrees_with_the_standard_stable_sort() {
    for count in [0u32, 1, 2, 3, 4, 5, 7, 8, 16, 33, 100, 257] {
        let list = scrambled(count);

        let mut by_memory = list.clone();
        sort_by_memory(&mut by_memory);
        let mut expected = list.clone();
        expected.sort_by(|a, b| b.memory_bytes.cmp(&a.memory_bytes));
        assert_eq!(by_memory, expected);

        let mut by_cpu = list.clone();
        _sort_by_cpu(&mut by_cpu);
        let mut expected = list.clone();
        expected.sort_by(|a, b| b.cpu_usage.cmp(&a.cpu_usage));
        assert_eq!(by_cpu, expected);
    }
}

#[test]
fn sort_keeps_every_process() {
    let list = scrambled(200);
    let mut sorted = list.clone();
    sort_by_memory(&mut sorted);
    let mut before = pids(&list);
    let mut after = pids(&sorted);
    before.sort();
    after.sort();
    assert_eq!(before, after);
}

#[test]
fn sorting_the_same_snapshot_twice_gives_the_same_list() {
    let snapshot = scrambled(300);
    let mut first = snapshot.clone();
    let mut second = snapshot.clone();
    sort_by_memory(&mut first);
    sort_by_memory(&mut second);
    assert_eq!(first, second);
}

#[test]
fn sorting_a_sorted_list_changes_nothing() {
    let mut list = scrambled(300);
    sort_by_memory(&mut list);
    let once = list.clone();
    sort_by_memory(&mut list);
    assert_eq!(list, once);
}

#[test]
fn listing_order_does_not_matter_without_ties() {
    let mut first = vec![process(1, 0, 10), process(2, 0, 30), process(3, 0, 20)];
    let mut second = vec![process(3, 0, 20), process(1, 0, 10), process(2, 0, 30)];
    sort_by_memory(&mut first);
    sort_by_memory(&mut second);
    assert_eq!(first, second);
    assert_eq!(pids(&first), vec![2, 3, 1]);
}

#[test]
fn listing_order_of_ties_shows_in_the_result() {
    let mut first = vec![process(1, 0, 10), process(2, 0, 10)];
    let mut second = vec![process(2, 0, 10), process(1, 0, 10)];
    sort_by_memory(&mut first);
    sort_by_memory(&mut second);
    assert_eq!(pids(&first), vec![1, 2]);
    assert_eq!(pids(&second), vec![2, 1]);
}

#[test]
fn sort_by_cpu_orders_largest_first() {
    let mut list = vec![process(1, 250, 9), process(2, 12_000, 1), process(3, 0, 5), process(4, 250, 7)];
    _sort_by_cpu(&mut list);
    assert_eq!(pids(&list), vec![2, 1, 4, 3]);
}

#[test]
fn sort_processes_takes_either_key() {
    let list = vec![process(1, 5, 1), process(2, 1, 5)];
    let mut by_memory = list.clone();
    sort_processes(&mut by_memory, SortKey::Memory);
    assert_eq!(pids(&by_memory), vec![2, 1]);
    let mut by_cpu = list.clone();
    sort_processes(&mut by_cpu, SortKey::Cpu);
    assert_eq!(pids(&by_cpu), vec![1, 2]);
}

#[test]
fn sort_of_empty_and_single_lists() {
    let mut empty: Vec<Process> = Vec::new();
    sort_by_memory(&mut empty);
    assert!(empty.is_empty());
    let mut single = vec![process(9, 1, 1)];
    sort_by_memory(&mut single);
    assert_eq!(pids(&single), vec![9]);
}

#[test]
fn sort_handles_the_largest_values() {
    let mut list = vec![process(1, 0, 0), process(2, 0, u64::MAX), process(3, 0, u64::MAX - 1)];
    sort_by_memory(&mut list);
    assert_eq!(pids(&list), vec![2, 3, 1]);
    let mut list = vec![process(1, 0, 0), process(2, u32::MAX, 0)];
    _sort_by_cpu(&mut list);
    assert_eq!(pids(&list), vec![2, 1]);
}
