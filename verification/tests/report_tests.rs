use cpu_eater::report::{
    compute_statistics, current_thread_id_line, statistics_report, thread_id_line, thread_line,
    total_line, worker_name,
};

#[test]
fn rates_round_down_and_add_up() {
    let stats = compute_statistics(&vec![5000, 2500, 1], 1000);
    assert_eq!(stats.rates, vec![5, 2, 0]);
    assert_eq!(stats.total, 7);
}

#[test]
fn total_is_sum_of_rounded_rates() {
    let stats = compute_statistics(&vec![3, 3, 3], 2);
    assert_eq!(stats.rates, vec![1, 1, 1]);
    assert_eq!(stats.total, 3);
}

#[test]
fn no_threads_no_rates() {
    let stats = compute_statistics(&vec![], 17);
    assert!(stats.rates.is_empty());
    assert_eq!(stats.total, 0);
}

#[test]
fn large_counts_do_not_overflow() {
    let stats = compute_statistics(&vec![u64::MAX, u64::MAX], 1);
    assert_eq!(stats.total, 2 * (u64::MAX as u128));
}

#[test]
fn thread_line_text() {
    assert_eq!(thread_line(3, 12000, 12), "thread number: 3, steps: 12000, steps/ms: 12, ");
}

#[test]
fn total_line_text() {
    assert_eq!(total_line(42), "Total steps/ms: 42, total time of test: ");
}

#[test]
fn report_lines() {
    let lines = statistics_report(&vec![4000, 9001], 2000);
    assert_eq!(
        lines,
        vec![
            "thread number: 0, steps: 4000, steps/ms: 2, ".to_string(),
            "thread number: 1, steps: 9001, steps/ms: 4, ".to_string(),
            "Total steps/ms: 6, total time of test: ".to_string(),
        ]
    );
}

#[test]
fn worker_names() {
    assert_eq!(worker_name(0), "cpu-eater-w-0");
    assert_eq!(worker_name(17), "cpu-eater-w-17");
}

#[test]
fn thread_id_lines() {
    assert_eq!(thread_id_line(14449), "threadid: 14449");
    assert_eq!(thread_id_line(-5), "threadid: -5");
    assert_eq!(thread_id_line(i128::MIN), format!("threadid: {}", i128::MIN));
}

#[test]
fn current_thread_id_line_names_this_thread() {
    let expected = format!("threadid: {:?}", os_id::thread::get_raw_id());
    assert_eq!(current_thread_id_line(), expected);
}

#[test]
fn no_threads_within_the_first_millisecond() {
    let stats = compute_statistics(&vec![], 0);
    assert!(stats.rates.is_empty());
    assert_eq!(stats.total, 0);
    assert_eq!(
        statistics_report(&vec![], 0),
        vec!["Total steps/ms: 0, total time of test: ".to_string()]
    );
}
