use untron_solver::report::{intent_short, recent_job_line, recent_jobs_header, state_summary_line};

#[test]
fn state_summary_right_aligns_counts() {
    assert_eq!(state_summary_line(12, "ready"), "     12  ready");
    assert_eq!(state_summary_line(12345678, "done"), "12345678  done");
}

#[test]
fn intent_ids_are_shortened() {
    let id = "0123456789abcdef0123456789abcdef";
    assert_eq!(intent_short(id), "01234567..89abcdef");
    assert_eq!(intent_short("abcdefgh"), "abcdefgh..abcdefgh");
}

#[test]
fn recent_jobs_table_matches_format_widths() {
    let header = format!(
        "{:>6}  {:<10}  {:<24}  {:>4}  {:>5}  {:>5}  {:<20}  {}",
        "job_id", "state", "intent_id", "type", "att", "lease", "updated_at", "last_error"
    );
    assert_eq!(recent_jobs_header(), header);

    let id = "aa".repeat(32);
    let line = recent_job_line(7, "claimed", &id, 2, 3, -5, "2024-01-01", "boom");
    let expected = format!(
        "{:>6}  {:<10}  {:<24}  {:>4}  {:>5}  {:>5}  {:<20}  {}",
        7,
        "claimed",
        format!("{}..{}", &id[..8], &id[id.len() - 8..]),
        2,
        3,
        0,
        "2024-01-01",
        "boom"
    );
    assert_eq!(line, expected);
}
