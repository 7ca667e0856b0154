use procfd::model::FDTarget;
use procfd::model::FDType;
use procfd::model::FdEntry;
use procfd::output::unique_pids;

fn entry(pid: i32) -> FdEntry {
    FdEntry {
        pid,
        user: String::from("u"),
        name: String::from("n"),
        fd_type: FDType::File,
        fd: Some(0),
        mode: None,
        target: FDTarget::Path(b"/".to_vec()),
    }
}

#[test]
fn the_pids_come_sorted_and_once() {
    let entries: Vec<FdEntry> = [30, 2, 30, 100, 2, 2, 7].iter().map(|p| entry(*p)).collect();
    assert_eq!(unique_pids(&entries), vec![2, 7, 30, 100]);
}

#[test]
fn no_entries_give_no_pids() {
    assert_eq!(unique_pids(&vec![]), Vec::<i32>::new());
}

#[test]
fn one_process_gives_one_pid() {
    let entries: Vec<FdEntry> = [5, 5, 5].iter().map(|p| entry(*p)).collect();
    assert_eq!(unique_pids(&entries), vec![5]);
}

#[test]
fn pids_are_ordered_as_numbers() {
    let entries: Vec<FdEntry> = [10, 9, 100, 1, -1, i32::MAX, 0].iter().map(|p| entry(*p)).collect();
    assert_eq!(unique_pids(&entries), vec![-1, 0, 1, 9, 10, 100, i32::MAX]);
}
