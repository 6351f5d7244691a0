use gh_log::calendar::{month_start, month_start_from_parts, start_of_day, start_of_week};
use gh_log::config::{Config, ConfigError, FilterConfig, SizeConfig};
use gh_log::ranking::name_precedes;

fn config_with(filter: FilterConfig) -> Config {
    Config {
        filter,
        size: SizeConfig::default(),
    }
}

fn filters() -> FilterConfig {
    FilterConfig {
        exclude_repos: vec!["user/spam".to_string()],
        exclude_patterns: vec!["^test:".to_string(), "^tmp:".to_string()],
        ignore_repos: vec!["user/notes".to_string()],
        ignore_patterns: vec!["^docs:".to_string(), "^meeting:".to_string()],
    }
}

#[test]
fn test_validate_all_valid_patterns() {
    let config = config_with(filters());
    assert!(config.filter.validate().is_ok());
}

#[test]
fn test_validate_invalid_exclude_pattern() {
    let config = config_with(FilterConfig {
        exclude_patterns: vec!["[invalid".to_string()],
        ..filters()
    });
    match config.filter.validate() {
        Err(ConfigError::InvalidExcludePattern(p)) => assert_eq!(p, "[invalid"),
        _ => panic!("expected an invalid exclude pattern"),
    }
}

#[test]
fn test_validate_invalid_ignore_pattern() {
    let config = config_with(FilterConfig {
        ignore_patterns: vec!["^valid".to_string(), "***broken".to_string()],
        ..filters()
    });
    match config.filter.validate() {
        Err(ConfigError::InvalidIgnorePattern(p)) => assert_eq!(p, "***broken"),
        _ => panic!("expected an invalid ignore pattern"),
    }
}

#[test]
fn repository_rules_match_exact_names() {
    let config = config_with(filters());
    assert!(config.should_exclude_repo("user/spam"));
    assert!(!config.should_exclude_repo("user/spam2"));
    assert!(!config.should_exclude_repo("user/notes"));
    assert!(config.should_ignore_repo("user/notes"));
    assert!(!config.should_ignore_repo("user"));
}

#[test]
fn title_rules_use_regex_search() {
    let config = config_with(filters());
    assert!(config.should_exclude_pr_title("test: something"));
    assert!(config.should_exclude_pr_title("tmp: x"));
    assert!(!config.should_exclude_pr_title("a test: something"));
    assert!(config.should_ignore_pr_title("meeting: notes"));
    assert!(!config.should_ignore_pr_title("Fix docs: typo"));
    let search = config_with(FilterConfig {
        ignore_patterns: vec!["docs".to_string()],
        ..filters()
    });
    assert!(search.should_ignore_pr_title("Fix docs: typo"));
}

#[test]
fn thresholds_must_ascend() {
    assert!(matches!(
        SizeConfig::try_new(100, 100, 100),
        Err(ConfigError::ThresholdsNotAscending)
    ));
    assert!(matches!(
        SizeConfig::try_new(500, 200, 100),
        Err(ConfigError::ThresholdsNotAscending)
    ));
    match SizeConfig::try_new(75, 250, 600) {
        Ok(sizes) => {
            assert_eq!(sizes.small, 75);
            assert_eq!(sizes.medium, 250);
            assert_eq!(sizes.large, 600);
        }
        Err(_) => panic!("ascending thresholds rejected"),
    }
    let defaults = SizeConfig::default();
    assert_eq!((defaults.small, defaults.medium, defaults.large), (50, 200, 500));
}

#[test]
fn calendar_helpers() {
    // 2024-01-17T12:34:56Z is a Wednesday.
    let t = 1705494896;
    assert_eq!(start_of_day(t), 1705449600);
    assert_eq!(start_of_week(t), 1705276800);
    assert_eq!(month_start(t), 1704067200);
    assert_eq!(month_start_from_parts(2024, 2), 1706745600);
    // 1969-12-31T23:00:00Z, a Wednesday, before the epoch.
    assert_eq!(start_of_day(-3600), -86400);
    assert_eq!(start_of_week(-3600), -2 * 86400 - 86400);
    assert_eq!(month_start(-3600), -31 * 86400);
}

#[test]
fn names_compare_by_bytes() {
    assert!(name_precedes("a", "b"));
    assert!(name_precedes("ab", "abc"));
    assert!(!name_precedes("abc", "ab"));
    assert!(!name_precedes("same", "same"));
    assert!(name_precedes("Z", "a"));
}
