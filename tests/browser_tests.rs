use gh_log::cache::{is_cache_fresh, Cache, CacheError, MAX_CACHE_SIZE};
use gh_log::cli::{parser_month, view_help};
use gh_log::data::{format_duration, MonthData, PRDetail};
use gh_log::github::{next_page, reviewed_total, CommandClient, PageInfo};
use gh_log::view::{content_widths, msg_for_key, pad_line, separator_line, tail_order, Key, Msg};

use chrono::{Datelike, Utc};

const MINUTE: u64 = 60;
const HOUR: u64 = 3600;
const DAY: u64 = 86400;

#[test]
fn main_test_format_duration() {
    assert_eq!(format_duration(30 * MINUTE), "30m");
    assert_eq!(format_duration(2 * HOUR), "2h 0m");
    assert_eq!(format_duration(2 * HOUR + 30 * MINUTE), "2h 30m");
    assert_eq!(format_duration(DAY), "1d 0h");
    assert_eq!(format_duration(DAY + 3 * HOUR), "1d 3h");
}

#[test]
fn view_test_format_duration() {
    assert_eq!(format_duration(30 * MINUTE), "30m");
    assert_eq!(format_duration(2 * HOUR), "2h 0m");
    assert_eq!(format_duration(2 * HOUR + 30 * MINUTE), "2h 30m");
    assert_eq!(format_duration(DAY), "1d 0h");
    assert_eq!(format_duration(DAY + 3 * HOUR), "1d 3h");
}

#[test]
fn durations_below_a_minute_and_many_days() {
    assert_eq!(format_duration(59), "0m");
    assert_eq!(format_duration(12 * DAY + 23 * HOUR + 59 * MINUTE), "12d 23h");
}

#[test]
fn test_cache_freshness() {
    let now = Utc::now();
    let t = now.timestamp();
    let (year, month) = (now.year(), now.month());

    assert!(is_cache_fresh(year, month, t, t - 3600));
    assert!(!is_cache_fresh(year, month, t, t - 7 * 3600));
    assert!(is_cache_fresh(2020, 1, t, t - 365 * 86400));
}

#[test]
fn previous_month_stays_fresh_for_a_day() {
    // 2024-03-15T12:00:00Z; thirty days earlier is in February.
    let now = 1710504000;
    assert!(is_cache_fresh(2024, 2, now, now - 23 * 3600));
    assert!(!is_cache_fresh(2024, 2, now, now - 25 * 3600));
    assert!(!is_cache_fresh(2024, 3, now, now - 6 * 3600));
    assert!(is_cache_fresh(2024, 1, now, now - 100 * 86400));
}

#[test]
fn test_save_fails_with_too_many_prs() {
    let cache = Cache::new("/tmp/cache".to_string(), 10);
    let result = cache.check_size(11);
    assert!(result.is_err());
    match result {
        Err(CacheError::TooManyPrs { count, max }) => assert_eq!((count, max), (11, 10)),
        Ok(()) => panic!("eleven pull requests accepted"),
    }
    assert!(cache.check_size(10).is_ok());
    assert_eq!(cache.get_cache_file_path("2025-01"), "/tmp/cache/2025-01.json");
    assert_eq!(MAX_CACHE_SIZE, 10000);
}

#[test]
fn queries_carry_month_and_cursor() {
    let client = CommandClient::new();
    let first = client.pull_requests_query("2025-01", &None);
    assert!(first.starts_with("{\n  search(query: \"is:pr author:@me created:2025-01\", type: ISSUE, first: 100) {"));
    assert!(first.contains("changedFiles"));
    assert!(first.contains("reviews(first: 10)"));
    let next = client.pull_requests_query("2025-01", &Some("abc".to_string()));
    assert!(next.contains("first: 100, after: \"abc\") {"));
    let reviewed = client.reviewed_query("2024-12", &None);
    assert!(reviewed.contains("is:pr reviewed-by:@me created:2024-12\""));
    assert!(reviewed.contains("issueCount"));
}

#[test]
fn paging_stops_without_next_page() {
    let more = PageInfo {
        has_next_page: true,
        end_cursor: Some("c1".to_string()),
    };
    assert_eq!(next_page(&more), Some(Some("c1".to_string())));
    let last = PageInfo {
        has_next_page: false,
        end_cursor: Some("c2".to_string()),
    };
    assert_eq!(next_page(&last), None);
    assert_eq!(reviewed_total(3, Some(7)), 7);
    assert_eq!(reviewed_total(3, None), 3);
}

#[test]
fn month_flag_format() {
    assert_eq!(parser_month("2025-11"), Ok("2025-11".to_string()));
    assert!(parser_month("2025/11").is_err());
    assert!(parser_month("2025-1").is_err());
    assert!(view_help().contains("Tail"));
}

#[test]
fn keys_map_to_messages() {
    assert_eq!(msg_for_key(Key::Char('q')), Some(Msg::Quit));
    assert_eq!(msg_for_key(Key::Esc), Some(Msg::Quit));
    assert_eq!(msg_for_key(Key::Char('d')), Some(Msg::ToggleDetail));
    assert_eq!(msg_for_key(Key::Char('j')), Some(Msg::ScrollDown));
    assert_eq!(msg_for_key(Key::Up), Some(Msg::ScrollUp));
    assert_eq!(msg_for_key(Key::Char('x')), None);
    assert_eq!(msg_for_key(Key::Other), None);
}

#[test]
fn widths_follow_the_terminal() {
    assert_eq!(content_widths(120), (115, 26, 53));
    assert_eq!(content_widths(40), (35, 10, 20));
    assert_eq!(content_widths(0), (0, 10, 20));
}

#[test]
fn lines_are_padded_to_width() {
    assert_eq!(pad_line("ab", 5, '-'), "ab---");
    assert_eq!(pad_line("abcdef", 3, '-'), "abcdef");
    assert_eq!(separator_line("Weeks", 12), "━━━ Weeks ━━");
    assert_eq!(separator_line("Repositories", 4), "━━━ Repositories ");
}

fn detail(number: u32, lead_time: u64) -> PRDetail {
    PRDetail {
        created_at: 1705312800,
        repo: "o/r".to_string(),
        number,
        title: format!("PR {}", number),
        body: None,
        lead_time,
        additions: 1,
        deletions: 1,
        changed_files: 1,
    }
}

#[test]
fn tail_lists_longest_lead_time_first() {
    let mut data = MonthData::empty(0, 0);
    data.prs_by_week = vec![vec![detail(1, 10), detail(2, 50)], vec![detail(3, 10), detail(4, 70)]];
    let order: Vec<u32> = tail_order(&data).iter().map(|d| d.number).collect();
    assert_eq!(order, vec![4, 2, 1, 3]);
}
