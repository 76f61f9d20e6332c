use sysmon::process::{_sort_by_cpu, sort_by_memory, Process, ProcessStatus};

fn sample() -> Process {
    Process {
        pid: 4321,
        name: String::from("firefox"),
        cpu_usage: 1_234,
        memory_bytes: 123_456_789,
        status: ProcessStatus::Sleeping,
        parent_pid: Some(1),
    }
}

#[test]
fn status_labels() {
    assert_eq!(ProcessStatus::Running.label(), "Running");
    assert_eq!(ProcessStatus::Sleeping.label(), "Sleeping");
    assert_eq!(ProcessStatus::Idle.label(), "Idle");
    assert_eq!(ProcessStatus::Zombie.label(), "Zombie");
    assert_eq!(ProcessStatus::Dead.label(), "Dead");
    assert_eq!(ProcessStatus::Stopped.label(), "Stopped");
    assert_eq!(ProcessStatus::Unknown.label(), "Unknown");
}

#[test]
fn parent_text_is_the_pid_or_none() {
    let mut process = sample();
    assert_eq!(process.parent_text(), "1");
    process.parent_pid = Some(u32::MAX);
    assert_eq!(process.parent_text(), "4294967295");
    process.parent_pid = Some(0);
    assert_eq!(process.parent_text(), "0");
    process.parent_pid = None;
    assert_eq!(process.parent_text(), "None");
}

#[test]
fn display_name_shortens_long_names() {
    let mut process = sample();
    assert_eq!(process.display_name(), "firefox");
    process.name = String::from("exactly15chars!");
    assert_eq!(process.display_name(), "exactly15chars!");
    process.name = String::from("sixteen_chars_xy");
    assert_eq!(process.display_name(), "sixteen_char...");
    process.name = String::from("a-very-long-process-name-indeed");
    assert_eq!(process.display_name(), "a-very-long-...");
    process.name = String::new();
    assert_eq!(process.display_name(), "");
}

#[test]
fn display_name_counts_characters() {
    let mut process = sample();
    process.name = String::from("ééééééééééééééé");
    assert_eq!(process.display_name(), "ééééééééééééééé");
    process.name = String::from("éééééééééééééééé");
    assert_eq!(process.display_name(), "éééééééééééé...");
}

#[test]
fn cpu_and_memory_as_shown() {
    let process = sample();
    assert_eq!(process.cpu_text(), "12.3%");
    assert_eq!(process.memory_text(), "117.74MB");
    let mut idle = sample();
    idle.cpu_usage = 0;
    idle.memory_bytes = 0;
    assert_eq!(idle.cpu_text(), "0.0%");
    assert_eq!(idle.memory_text(), "0.00MB");
}

#[test]
fn describe_lists_every_field() {
    assert_eq!(
        sample().describe(),
        "PID: 4321   | Name: firefox              | CPU: 12.3 % | Mem: 117.74MB | Status: Sleeping | Parent: 1"
    );
    let orphan = Process {
        pid: 1,
        name: String::from("init"),
        cpu_usage: 0,
        memory_bytes: 1_048_576,
        status: ProcessStatus::Running,
        parent_pid: None,
    };
    assert_eq!(
        orphan.describe(),
        "PID: 1      | Name: init                 | CPU: 0.0  % | Mem: 1.00  MB | Status: Running  | Parent: None"
    );
}

#[test]
fn describe_does_not_cut_wide_fields() {
    let wide = Process {
        pid: 1_234_567,
        name: String::from("a-name-of-more-than-twenty-characters"),
        cpu_usage: 640_000,
        memory_bytes: 64 * 1024 * 1024 * 1024,
        status: ProcessStatus::Unknown,
        parent_pid: Some(7_654_321),
    };
    assert_eq!(
        wide.describe(),
        "PID: 1234567 | Name: a-name-of-more-than-twenty-characters | CPU: 6400.0% | Mem: 65536.00MB | Status: Unknown  | Parent: 7654321"
    );
}

#[test]
fn processes_sort_by_either_metric() {
    let mut light = sample();
    light.pid = 1;
    light.memory_bytes = 10;
    light.cpu_usage = 900;
    let mut heavy = sample();
    heavy.pid = 2;
    heavy.memory_bytes = 20;
    heavy.cpu_usage = 100;
    let mut list = vec![light, heavy];
    sort_by_memory(&mut list);
    assert_eq!(list[0].pid, 2);
    _sort_by_cpu(&mut list);
    assert_eq!(list[0].pid, 1);
}
