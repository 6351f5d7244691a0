use gh_log::config::{Config, FilterConfig, SizeConfig};
use gh_log::data::{
    avg_duration, build_month_data, build_prs_by_repo, compute_pr_size, compute_size_counts,
    parse_month, AggregateError, MonthData, PRDetail, PRSize, RepoData,
};
use gh_log::github::{Author, PullRequest, Repository, Review, Reviews};

const HOUR: i64 = 3600;
const DAY: i64 = 86400;
/// 2024-01-15T10:00:00Z, a Monday.
const BASE: i64 = 1705312800;

fn no_filters() -> FilterConfig {
    FilterConfig {
        exclude_repos: vec![],
        exclude_patterns: vec![],
        ignore_repos: vec![],
        ignore_patterns: vec![],
    }
}

fn default_config() -> Config {
    Config {
        filter: no_filters(),
        size: SizeConfig::default(),
    }
}

fn create_test_pr(
    number: u32,
    title: &str,
    repo_name: &str,
    created_at: i64,
    updated_at: i64,
    additions: u32,
    deletions: u32,
    changed_files: u32,
    reviewers: Vec<&str>,
) -> PullRequest {
    PullRequest {
        number,
        title: title.to_string(),
        body: Some(format!("Description for {}", title)),
        repository: Repository {
            name_with_owner: repo_name.to_string(),
        },
        created_at,
        updated_at,
        additions,
        deletions,
        changed_files,
        reviews: Reviews {
            nodes: reviewers
                .into_iter()
                .map(|login| Review {
                    author: Author {
                        login: login.to_string(),
                    },
                })
                .collect(),
        },
    }
}

fn build(month: &str, prs: Vec<PullRequest>, reviewed: usize, cfg: &Config) -> MonthData {
    match build_month_data(month, prs, reviewed, cfg) {
        Ok(data) => data,
        Err(_) => panic!("aggregation failed"),
    }
}

#[test]
fn test_build_month_data_empty_input() {
    let config = default_config();
    let prs = vec![];

    let result = build("2024-01", prs, 0, &config);

    assert_eq!(result.total_prs, 0);
    assert_eq!(result.weeks.len(), 0);
    assert_eq!(result.repos.len(), 0);
}

#[test]
fn test_build_month_data_single_pr() {
    let config = default_config();
    let base_date = BASE;

    let prs = vec![create_test_pr(
        1,
        "Add feature",
        "owner/repo-a",
        base_date,
        base_date + 5 * HOUR,
        30,
        10,
        3,
        vec!["reviewer1"],
    )];

    let result = build("2024-01", prs, 1, &config);

    assert_eq!(result.total_prs, 1);
    assert_eq!(result.size_s, 1);
    assert_eq!(result.reviewed_count, 1);
    assert_eq!(result.reviewers.len(), 1);
    assert_eq!(result.reviewers[0].login, "reviewer1");
    assert_eq!(result.repos.len(), 1);
    assert_eq!(result.repos[0].name, "owner/repo-a");
}

#[test]
fn test_build_month_data_multiple_repos_sorted_by_pr_count() {
    let config = default_config();
    let base_date = BASE;

    let prs = vec![
        create_test_pr(1, "PR 1", "owner/repo-a", base_date, base_date + 2 * HOUR, 20, 10, 2, vec![]),
        create_test_pr(
            2,
            "PR 2",
            "owner/repo-b",
            base_date + HOUR,
            base_date + 3 * HOUR,
            30,
            15,
            3,
            vec![],
        ),
        create_test_pr(
            3,
            "PR 3",
            "owner/repo-a",
            base_date + 2 * HOUR,
            base_date + 4 * HOUR,
            40,
            20,
            4,
            vec![],
        ),
    ];

    let result = build("2024-01", prs, 0, &config);

    assert_eq!(result.total_prs, 3);
    assert_eq!(result.repos.len(), 2);
    assert_eq!(result.repos[0].name, "owner/repo-a");
    assert_eq!(result.repos[0].pr_count, 2);
    assert_eq!(result.repos[1].name, "owner/repo-b");
    assert_eq!(result.repos[1].pr_count, 1);
}

#[test]
fn test_build_month_data_size_distribution() {
    let config = default_config();
    let base_date = BASE;

    let prs = vec![
        create_test_pr(1, "Small PR", "owner/repo", base_date, base_date + HOUR, 20, 10, 2, vec![]),
        create_test_pr(
            2,
            "Medium PR",
            "owner/repo",
            base_date + HOUR,
            base_date + 3 * HOUR,
            100,
            50,
            5,
            vec![],
        ),
        create_test_pr(
            3,
            "Large PR",
            "owner/repo",
            base_date + 2 * HOUR,
            base_date + 5 * HOUR,
            300,
            100,
            10,
            vec![],
        ),
        create_test_pr(
            4,
            "XL PR",
            "owner/repo",
            base_date + 3 * HOUR,
            base_date + 7 * HOUR,
            600,
            200,
            15,
            vec![],
        ),
    ];

    let result = build("2024-01", prs, 0, &config);

    assert_eq!(result.total_prs, 4);
    assert_eq!(result.size_s, 1);
    assert_eq!(result.size_m, 1);
    assert_eq!(result.size_l, 1);
    assert_eq!(result.size_xl, 1);
    assert_eq!(result.format_size_distribution(), "1S 1M 1L 1XL");
}

#[test]
fn test_build_month_data_week_grouping() {
    let config = default_config();
    let base_date = BASE;

    let prs = vec![
        create_test_pr(
            1,
            "Week 1 PR 1",
            "owner/repo",
            base_date,
            base_date + 2 * HOUR,
            20,
            10,
            2,
            vec![],
        ),
        create_test_pr(
            2,
            "Week 1 PR 2",
            "owner/repo",
            base_date + 2 * DAY,
            base_date + 2 * DAY + 3 * HOUR,
            30,
            15,
            3,
            vec![],
        ),
        create_test_pr(
            3,
            "Week 2 PR",
            "owner/repo",
            base_date + 8 * DAY,
            base_date + 8 * DAY + 4 * HOUR,
            40,
            20,
            4,
            vec![],
        ),
    ];

    let result = build("2024-01", prs, 0, &config);

    assert_eq!(result.total_prs, 3);
    assert!(result.weeks.len() >= 2);
    assert_eq!(result.prs_by_week[0].len(), 2);
    assert_eq!(result.prs_by_week[1].len(), 1);
}

fn scenario_prs(jan6: i64, jan8: i64, jan15: i64) -> Vec<PullRequest> {
    vec![
        create_test_pr(1, "One", "acme/widgets", jan6, jan6 + 2 * HOUR, 10, 5, 2, vec![]),
        create_test_pr(2, "Two", "acme/widgets", jan8, jan8 + 2 * HOUR, 300, 100, 8, vec![]),
        create_test_pr(3, "Three", "acme/widgets", jan15, jan15 + 2 * HOUR, 10, 5, 2, vec![]),
    ]
}

#[test]
fn scenario_three_prs_monday_start() {
    // 2025-01-06 is a Monday; 2025-01-08 and 2025-01-15 follow, all at 09:00 UTC.
    let prs = scenario_prs(1736154000, 1736326800, 1736931600);
    let result = build("2025-01", prs, 0, &default_config());
    assert_eq!(result.month_start, 1735689600);
    assert_eq!(result.weeks.len(), 2);
    assert_eq!(result.weeks[0].pr_count, 2);
    assert_eq!(result.weeks[1].pr_count, 1);
    assert_eq!(result.weeks[0].week_start, 1736154000 - 9 * HOUR);
    assert_eq!(result.weeks[0].week_end, 1736726400 - 1);
    assert_eq!(result.total_prs, 3);
    assert_eq!(result.size_s, 2);
    assert_eq!(result.size_l, 1);
    assert_eq!(result.size_m, 0);
    assert_eq!(result.size_xl, 0);
    assert_eq!(result.avg_lead_time, 2 * HOUR as u64);
    assert_eq!(result.frequency.numerator, 21);
    assert_eq!(result.frequency.denominator, 9);
    let per_week = result.frequency.numerator as f64 / result.frequency.denominator as f64;
    assert!((per_week - 3.0 / (9.0 / 7.0)).abs() < 1e-9);
}

#[test]
fn scenario_three_prs_in_january_2024() {
    // 2024-01-06 is a Saturday, so each pull request opens a week of its own.
    let prs = scenario_prs(1704531600, 1704704400, 1705309200);
    let result = build("2024-01", prs, 0, &default_config());
    assert_eq!(result.month_start, 1704067200);
    assert_eq!(result.weeks.len(), 3);
    assert_eq!(result.weeks[0].week_start, 1704067200);
    assert_eq!(result.weeks[0].pr_count, 1);
    assert_eq!(result.weeks[1].pr_count, 1);
    assert_eq!(result.weeks[2].pr_count, 1);
    assert_eq!(result.avg_lead_time, 2 * HOUR as u64);
    assert_eq!(result.frequency.numerator, 21);
    assert_eq!(result.frequency.denominator, 9);
}

#[test]
fn file_count_overrides_line_thresholds() {
    let sizes = SizeConfig::default();
    assert_eq!(compute_pr_size(10, 5, 20, &sizes), PRSize::L);
    assert_eq!(compute_pr_size(10, 5, 5, &sizes), PRSize::S);
    assert_eq!(compute_pr_size(0, 0, 25, &sizes), PRSize::XL);
    assert_eq!(compute_pr_size(400, 101, 15, &sizes), PRSize::XL);
    assert_eq!(compute_pr_size(400, 100, 24, &sizes), PRSize::L);
}

#[test]
fn line_thresholds_are_inclusive() {
    let sizes = SizeConfig::new(50, 200, 500);
    assert_eq!(compute_pr_size(50, 0, 1, &sizes), PRSize::S);
    assert_eq!(compute_pr_size(51, 0, 1, &sizes), PRSize::M);
    assert_eq!(compute_pr_size(200, 0, 1, &sizes), PRSize::M);
    assert_eq!(compute_pr_size(201, 0, 1, &sizes), PRSize::L);
    assert_eq!(compute_pr_size(500, 0, 14, &sizes), PRSize::L);
    assert_eq!(compute_pr_size(501, 0, 14, &sizes), PRSize::XL);
    assert_eq!(compute_pr_size(u32::MAX, u32::MAX, 0, &sizes), PRSize::XL);
}

#[test]
fn size_labels() {
    assert_eq!(PRSize::S.label(), "S");
    assert_eq!(PRSize::XL.label(), "XL");
}

#[test]
fn average_duration_rounds_down() {
    assert_eq!(avg_duration(&[]), 0);
    assert_eq!(avg_duration(&[7200]), 7200);
    assert_eq!(avg_duration(&[1, 2]), 1);
    assert_eq!(avg_duration(&[10, 20, 31]), 20);
    assert_eq!(avg_duration(&[31, 10, 20]), 20);
    assert_eq!(avg_duration(&[u64::MAX, u64::MAX]), u64::MAX);
}

#[test]
fn exclude_and_ignore_rules() {
    let config = Config {
        filter: FilterConfig {
            exclude_repos: vec!["acme/spam".to_string()],
            exclude_patterns: vec![],
            ignore_repos: vec!["acme/notes".to_string()],
            ignore_patterns: vec![],
        },
        size: SizeConfig::default(),
    };
    let prs = vec![
        create_test_pr(1, "Spam", "acme/spam", BASE, BASE + HOUR, 1, 1, 1, vec!["alice", "bob"]),
        create_test_pr(2, "Notes", "acme/notes", BASE + HOUR, BASE + 2 * HOUR, 1, 1, 1, vec!["carol"]),
        create_test_pr(3, "Real", "acme/widgets", BASE + 2 * HOUR, BASE + 4 * HOUR, 300, 1, 1, vec!["carol", "dave", "carol"]),
    ];
    let result = build("2024-01", prs, 4, &config);
    assert_eq!(result.total_prs, 1);
    assert_eq!(result.repos.len(), 1);
    assert_eq!(result.repos[0].name, "acme/widgets");
    assert_eq!(result.prs_by_week.len(), 1);
    assert_eq!(result.prs_by_week[0].len(), 1);
    assert_eq!(result.prs_by_week[0][0].number, 3);
    assert_eq!(result.size_l, 1);
    assert_eq!(result.size_s, 0);
    assert_eq!(result.reviewed_count, 4);
    assert_eq!(result.reviewers.len(), 2);
    assert_eq!(result.reviewers[0].login, "carol");
    assert_eq!(result.reviewers[0].pr_count, 3);
    assert_eq!(result.reviewers[1].login, "dave");
    assert_eq!(result.reviewers[1].pr_count, 1);
}

#[test]
fn title_patterns_search_anywhere() {
    let config = Config {
        filter: FilterConfig {
            exclude_repos: vec![],
            exclude_patterns: vec!["^wip:".to_string()],
            ignore_repos: vec![],
            ignore_patterns: vec!["docs".to_string()],
        },
        size: SizeConfig::default(),
    };
    let prs = vec![
        create_test_pr(1, "wip: draft", "o/r", BASE, BASE + HOUR, 1, 1, 1, vec!["x"]),
        create_test_pr(2, "update docs page", "o/r", BASE, BASE + HOUR, 1, 1, 1, vec!["y"]),
        create_test_pr(3, "not wip: real", "o/r", BASE, BASE + HOUR, 1, 1, 1, vec![]),
    ];
    let result = build("2024-01", prs, 0, &config);
    assert_eq!(result.total_prs, 1);
    assert_eq!(result.prs_by_week[0][0].number, 3);
    assert_eq!(result.reviewers.len(), 1);
    assert_eq!(result.reviewers[0].login, "y");
}

#[test]
fn reviewer_ties_sorted_by_login() {
    let prs = vec![create_test_pr(
        1,
        "T",
        "o/r",
        BASE,
        BASE,
        1,
        1,
        1,
        vec!["zed", "amy", "bob", "amy", "zed"],
    )];
    let result = build("2024-01", prs, 0, &default_config());
    assert_eq!(result.avg_lead_time, 0);
    let logins: Vec<&str> = result.reviewers.iter().map(|r| r.login.as_str()).collect();
    assert_eq!(logins, vec!["amy", "zed", "bob"]);
}

#[test]
fn repository_ties_sorted_by_name() {
    let prs = vec![
        create_test_pr(1, "a", "o/zz", BASE, BASE + HOUR, 1, 1, 1, vec![]),
        create_test_pr(2, "b", "o/aa", BASE, BASE + 3 * HOUR, 1, 1, 1, vec![]),
        create_test_pr(3, "c", "o/mm", BASE, BASE + HOUR, 1, 1, 1, vec![]),
        create_test_pr(4, "d", "o/mm", BASE, BASE + HOUR, 1, 1, 1, vec![]),
    ];
    let result = build("2024-01", prs, 0, &default_config());
    let names: Vec<&str> = result.repos.iter().map(|r| r.name.as_str()).collect();
    assert_eq!(names, vec!["o/mm", "o/aa", "o/zz"]);
    assert_eq!(result.prs_by_repo[0].len(), 2);
    assert_eq!(result.prs_by_repo[1][0].number, 2);
    assert_eq!(result.repos[1].avg_lead_time, 3 * HOUR as u64);
    assert_eq!(result.repos[0].format_size_distribution(), "2S 0M 0L 0XL");
}

#[test]
fn entries_sorted_by_creation_keep_input_order_on_ties() {
    let prs = vec![
        create_test_pr(1, "late", "o/r", BASE + DAY, BASE + DAY, 1, 1, 1, vec![]),
        create_test_pr(2, "tie a", "o/r", BASE, BASE, 1, 1, 1, vec![]),
        create_test_pr(3, "tie b", "o/r", BASE, BASE, 1, 1, 1, vec![]),
    ];
    let result = build("2024-01", prs, 0, &default_config());
    let order: Vec<u32> = result.prs_by_week[0].iter().map(|d| d.number).collect();
    assert_eq!(order, vec![2, 3, 1]);
    assert_eq!(result.frequency.numerator, 21);
    assert_eq!(result.frequency.denominator, 7);
}

#[test]
fn pr_seven_days_after_week_start_opens_week_two() {
    // 2024-01-01 is a Monday; the second pull request is created exactly a week later.
    let prs = vec![
        create_test_pr(1, "a", "o/r", 1704067200, 1704067200, 1, 1, 1, vec![]),
        create_test_pr(2, "b", "o/r", 1704672000, 1704672000, 1, 1, 1, vec![]),
        create_test_pr(3, "c", "o/r", 1704672000 - 1, 1704672000, 1, 1, 1, vec![]),
    ];
    let result = build("2024-01", prs, 0, &default_config());
    assert_eq!(result.weeks.len(), 2);
    assert_eq!(result.weeks[0].week_end, 1704672000 - 1);
    assert_eq!(result.weeks[1].week_start, 1704672000);
    assert_eq!(result.weeks[1].week_num, 2);
    assert_eq!(result.prs_by_week[0].len(), 2);
    assert_eq!(result.prs_by_week[1][0].number, 2);
}

#[test]
fn first_week_starts_on_monday_before_a_sunday() {
    // 2024-01-14 23:30 UTC is a Sunday: its week starts on Monday 2024-01-08.
    let prs = vec![create_test_pr(1, "a", "o/r", 1705275000, 1705275000 + 60, 1, 1, 1, vec![])];
    let result = build("2024-01", prs, 0, &default_config());
    assert_eq!(result.weeks.len(), 1);
    assert_eq!(result.weeks[0].week_start, 1704672000);
    assert_eq!(result.weeks[0].avg_lead_time, 60);
    assert_eq!(result.frequency.denominator, 7);
}

#[test]
fn partition_sums_match_totals() {
    let prs = vec![
        create_test_pr(1, "a", "o/a", BASE, BASE + HOUR, 600, 0, 1, vec![]),
        create_test_pr(2, "b", "o/b", BASE + 9 * DAY, BASE + 10 * DAY, 100, 0, 1, vec![]),
        create_test_pr(3, "c", "o/a", BASE + 3 * DAY, BASE + 4 * DAY, 10, 0, 30, vec![]),
        create_test_pr(4, "d", "o/c", BASE + 15 * DAY, BASE + 15 * DAY, 1, 0, 1, vec![]),
    ];
    let result = build("2024-01", prs, 0, &default_config());
    let week_sum: usize = result.weeks.iter().map(|w| w.pr_count).sum();
    let repo_sum: usize = result.repos.iter().map(|r| r.pr_count).sum();
    let xl_sum: usize = result.repos.iter().map(|r| r.size_xl).sum();
    assert_eq!(week_sum, 4);
    assert_eq!(repo_sum, 4);
    assert_eq!(xl_sum, result.size_xl);
    assert_eq!(result.size_xl, 2);
    assert_eq!(result.weeks.len(), 3);
}

#[test]
fn updated_before_created_is_an_error() {
    let prs = vec![create_test_pr(9, "bad", "o/r", BASE, BASE - 1, 1, 1, 1, vec![])];
    match build_month_data("2024-01", prs, 0, &default_config()) {
        Err(AggregateError::UpdatedBeforeCreated { number }) => assert_eq!(number, 9),
        _ => panic!("expected a malformed-record error"),
    }
}

#[test]
fn timestamp_beyond_year_9999_is_an_error() {
    let prs = vec![create_test_pr(4, "far", "o/r", 253402300800, 253402300801, 1, 1, 1, vec![])];
    match build_month_data("2024-01", prs, 0, &default_config()) {
        Err(AggregateError::UnsupportedTimestamp { number }) => assert_eq!(number, 4),
        _ => panic!("expected an unsupported-timestamp error"),
    }
}

#[test]
fn malformed_excluded_record_is_not_checked() {
    let config = Config {
        filter: FilterConfig {
            exclude_repos: vec!["o/bad".to_string()],
            ..no_filters()
        },
        size: SizeConfig::default(),
    };
    let prs = vec![create_test_pr(9, "bad", "o/bad", BASE, BASE - 1, 1, 1, 1, vec![])];
    let result = build("2024-02", prs, 2, &config);
    assert_eq!(result.total_prs, 0);
    assert_eq!(result.month_start, 1706745600);
    assert_eq!(result.reviewed_count, 2);
}

#[test]
fn invalid_pattern_is_a_config_error() {
    let config = Config {
        filter: FilterConfig {
            ignore_patterns: vec!["[invalid".to_string()],
            ..no_filters()
        },
        size: SizeConfig::default(),
    };
    match build_month_data("2024-01", vec![], 0, &config) {
        Err(AggregateError::Config(_)) => {}
        _ => panic!("expected a configuration error"),
    }
}

#[test]
fn empty_month_needs_a_valid_label() {
    match build_month_data("2024-13", vec![], 0, &default_config()) {
        Err(AggregateError::InvalidMonth) => {}
        _ => panic!("expected an invalid-month error"),
    }
    let result = build("2020-02", vec![], 7, &default_config());
    assert_eq!(result.month_start, 1580515200);
    assert_eq!(result.reviewed_count, 7);
    assert_eq!(result.frequency.numerator, 0);
    assert_eq!(result.format_size_distribution(), "0S 0M 0L 0XL");
}

#[test]
fn month_labels() {
    assert_eq!(parse_month("2024-01"), Some((2024, 1)));
    assert_eq!(parse_month("0000-12"), Some((0, 12)));
    assert_eq!(parse_month("2024-00"), None);
    assert_eq!(parse_month("2024-1"), None);
    assert_eq!(parse_month("2024/11"), None);
    assert_eq!(parse_month("20a4-01"), None);
}

#[test]
fn size_counts_and_detail_size() {
    let detail = PRDetail {
        created_at: BASE,
        repo: "o/r".to_string(),
        number: 1,
        title: "t".to_string(),
        body: None,
        lead_time: 0,
        additions: 300,
        deletions: 0,
        changed_files: 1,
    };
    assert_eq!(detail.size(&SizeConfig::default()), PRSize::L);
    let copy = detail.duplicate();
    assert_eq!(copy.repo, "o/r");
    let counts = compute_size_counts(&vec![detail, copy], &SizeConfig::default());
    assert_eq!(counts, (0, 0, 2, 0));
}

#[test]
fn test_build_prs_by_repo() {
    let now = chrono::Utc::now().timestamp();
    let prs = vec![
        PRDetail {
            created_at: now,
            repo: "owner/repo-a".to_string(),
            number: 1,
            title: "PR 1".to_string(),
            body: None,
            lead_time: 3600,
            additions: 10,
            deletions: 5,
            changed_files: 2,
        },
        PRDetail {
            created_at: now,
            repo: "owner/repo-b".to_string(),
            number: 2,
            title: "PR 2".to_string(),
            body: None,
            lead_time: 7200,
            additions: 20,
            deletions: 10,
            changed_files: 3,
        },
    ];

    let repos = vec![
        RepoData {
            name: "owner/repo-a".to_string(),
            pr_count: 1,
            avg_lead_time: 3600,
            size_s: 1,
            size_m: 0,
            size_l: 0,
            size_xl: 0,
        },
        RepoData {
            name: "owner/repo-b".to_string(),
            pr_count: 1,
            avg_lead_time: 7200,
            size_s: 1,
            size_m: 0,
            size_l: 0,
            size_xl: 0,
        },
    ];

    let prs_by_repo = build_prs_by_repo(&repos, &prs);

    assert_eq!(prs_by_repo.len(), 2);
    assert_eq!(prs_by_repo[0].len(), 1);
    assert_eq!(prs_by_repo[0][0].number, 1);
    assert_eq!(prs_by_repo[1].len(), 1);
    assert_eq!(prs_by_repo[1][0].number, 2);
}
