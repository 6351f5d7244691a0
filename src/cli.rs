//! Command-line texts and checks.

use vstd::prelude::*;

use crate::config::{compiles, finds, pattern_compiles, pattern_finds};

verus! {

/// The form of a `--month` value: four digits, a hyphen, two digits.
pub const MONTH_PATTERN: &'static str = "^\\d{4}-\\d{2}$";

/// Accepts a `--month` value of the form "YYYY-MM".
pub fn parser_month(s: &str) -> (r: Result<String, String>)
    ensures
        r is Ok <==> pattern_compiles(MONTH_PATTERN@) && pattern_finds(MONTH_PATTERN@, s@),
        r matches Ok(t) ==> t@ == s@,
{
    if compiles(MONTH_PATTERN) && finds(MONTH_PATTERN, s) {
        Ok(s.to_owned())
    } else {
        Err("Month must be in format YYYY-MM, e.g. 2025-11".to_owned())
    }
}

pub const VIEW_HELP: &'static str = "Navigate PRs with an interactive terminal UI.

VIEWS:
  s - Summary (weekly & repo stats)
  d - Detail (cycle: by week ↔ by repo)
  t - Tail (all PRs sorted by lead time)

NAVIGATION:
  ↑↓ or j/k - Scroll up/down
  q or Esc  - Quit";

pub fn view_help() -> (r: &'static str)
    ensures
        r@ == VIEW_HELP@,
{
    VIEW_HELP
}

pub const PRINT_HELP: &'static str = "Output PR data to terminal or pipe to other tools.

FORMATS:
  (default) - Human-readable with PR descriptions
  --json    - JSON format (great for LLMs/scripts)
  --csv     - CSV format (import to spreadsheet)

EXAMPLES:
  gh-log print | pbcopy
  gh-log print --json | llm 'summarize'
  gh-log print --csv > prs-2025-01.csv";

pub fn print_help() -> (r: &'static str)
    ensures
        r@ == PRINT_HELP@,
{
    PRINT_HELP
}

pub const CONFIG_HELP: &'static str = "Create/edit configuration file to customize filtering and PR size thresholds.

LOCATION:
  macOS:   ~/Library/Application Support/gh-log/config.toml
  Linux:   ~/.config/gh-log/config.toml
  Windows: %APPDATA%\\gh-log\\config.toml

CONFIGURATION OPTIONS:

[filter]
  exclude_repos    - Hide repos completely (not shown anywhere)
  exclude_patterns - Hide PRs matching regex (e.g., \"^test:\", \"^wip:\")
  ignore_repos     - Show but don't count in metrics
  ignore_patterns  - Show but don't count in metrics (e.g., \"^docs:\", \"^meeting:\")

[size]
  small  - Max lines for S size (default: 50)
  medium - Max lines for M size (default: 200)
  large  - Max lines for L size (default: 500)
  (XL = anything above large threshold)

PATTERN SYNTAX:
  Uses regex syntax. Common patterns:
    ^prefix:        - Matches PR titles starting with \"prefix:\"
    (?i)keyword     - Case-insensitive match
    (foo|bar)       - Match either foo or bar

EXAMPLE CONFIG:
  [filter]
  exclude_repos = [\"username/spam-repo\"]
  exclude_patterns = [\"^test:\", \"^tmp:\", \"^wip:\"]
  ignore_repos = [\"username/personal-notes\"]
  ignore_patterns = [\"^docs:\", \"^meeting:\", \"^review:\"]

  [size]
  small = 50
  medium = 200
  large = 500

NOTES:
  - If a repo is both excluded and ignored, it gets excluded
  - Patterns are applied to PR titles
  - Size = additions + deletions + file count heuristic";

pub fn config_help() -> (r: &'static str)
    ensures
        r@ == CONFIG_HELP@,
{
    CONFIG_HELP
}

pub const DOCTOR_HELP: &'static str = "Verify system setup and show diagnostic information.

CHECKS:
  - GitHub CLI (gh) installation and version
  - Authentication status

DISPLAYS:
  - Cache directory location and contents
  - Configuration file location and status

PATHS:
  Cache:
    macOS:   ~/Library/Caches/gh-log/
    Linux:   ~/.cache/gh-log/
    Windows: %LOCALAPPDATA%\\gh-log\\cache\\

  Config:
    macOS:   ~/Library/Application Support/gh-log/config.toml
    Linux:   ~/.config/gh-log/config.toml
    Windows: %APPDATA%\\gh-log\\config.toml";

pub fn doctor_help() -> (r: &'static str)
    ensures
        r@ == DOCTOR_HELP@,
{
    DOCTOR_HELP
}

} // verus!
