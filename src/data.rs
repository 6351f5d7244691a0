//! The aggregation engine: from a month's pull requests to a `MonthData`.

use vstd::prelude::*;
use vstd::string::{StringExecFns, StringSliceAdditionalSpecFns};

use crate::calendar::{
    calendar_month, calendar_year, month_start, month_start_from_parts, month_start_of,
    start_of_week, supported_timestamp, week_one_start, SECONDS_PER_DAY, SECONDS_PER_WEEK,
};
use crate::config::{Config, ConfigError, SizeConfig};
use crate::github::PullRequest;
use crate::laws::{
    first_week_law, lemma_first_week, lemma_repos_partition, lemma_week_boundary,
    lemma_weeks_partition, repo_pr_total, repo_size_total, week_pr_total,
};
use crate::ranking::{add_occurrence, occurrences, rank, ranked, ranks_before, tally_of, NameCount};

verus! {

broadcast use vstd::seq_lib::group_to_multiset_ensures;

/// Size category of a pull request.
#[derive(Clone, Copy, Debug, PartialEq, Eq, Structural)]
pub enum PRSize {
    S,
    M,
    L,
    XL,
}

impl PRSize {
    /// The category's label: "S", "M", "L" or "XL".
    pub fn label(&self) -> (r: &'static str)
        ensures
            r@ == match *self {
                PRSize::S => "S"@,
                PRSize::M => "M"@,
                PRSize::L => "L"@,
                PRSize::XL => "XL"@,
            },
    {
        match self {
            PRSize::S => "S",
            PRSize::M => "M",
            PRSize::L => "L",
            PRSize::XL => "XL",
        }
    }

    pub open spec fn rank(self) -> int {
        match self {
            PRSize::S => 0,
            PRSize::M => 1,
            PRSize::L => 2,
            PRSize::XL => 3,
        }
    }
}

/// The size category: 25 or more changed files is XL; 15 to 24 files is L,
/// or XL above the large threshold; otherwise the changed lines decide
/// against the three thresholds.
pub open spec fn size_class(
    additions: int,
    deletions: int,
    changed_files: int,
    c: SizeConfig,
) -> PRSize {
    let total = additions + deletions;
    if changed_files >= 25 {
        PRSize::XL
    } else if changed_files >= 15 {
        if total > c.large {
            PRSize::XL
        } else {
            PRSize::L
        }
    } else if total <= c.small {
        PRSize::S
    } else if total <= c.medium {
        PRSize::M
    } else if total <= c.large {
        PRSize::L
    } else {
        PRSize::XL
    }
}

pub fn compute_pr_size(
    additions: u32,
    deletions: u32,
    changed_files: u32,
    size_config: &SizeConfig,
) -> (r: PRSize)
    ensures
        r == size_class(additions as int, deletions as int, changed_files as int, *size_config),
{
    let total_lines: u64 = additions as u64 + deletions as u64;
    if changed_files >= 25 {
        return PRSize::XL;
    }
    if changed_files >= 15 {
        if total_lines > size_config.large as u64 {
            return PRSize::XL;
        }
        return PRSize::L;
    }
    if total_lines <= size_config.small as u64 {
        PRSize::S
    } else if total_lines <= size_config.medium as u64 {
        PRSize::M
    } else if total_lines <= size_config.large as u64 {
        PRSize::L
    } else {
        PRSize::XL
    }
}

/// For a fixed number of changed files under 15, more changed lines never
/// give a smaller category; 25 or more files always give XL; 15 to 24 files
/// give at least L, and XL exactly when the lines exceed the large threshold.
pub proof fn lemma_size_class_laws(
    c: SizeConfig,
    changed_files: int,
    additions1: int,
    deletions1: int,
    additions2: int,
    deletions2: int,
)
    requires
        c.ascending(),
    ensures
        changed_files < 15 && additions1 + deletions1 <= additions2 + deletions2 ==> size_class(
            additions1,
            deletions1,
            changed_files,
            c,
        ).rank() <= size_class(additions2, deletions2, changed_files, c).rank(),
        changed_files >= 25 ==> size_class(additions1, deletions1, changed_files, c)
            == PRSize::XL,
        15 <= changed_files < 25 ==> size_class(additions1, deletions1, changed_files, c).rank()
            >= PRSize::L.rank(),
        15 <= changed_files < 25 ==> (size_class(additions1, deletions1, changed_files, c)
            == PRSize::XL <==> additions1 + deletions1 > c.large),
{
}

/// Sum of a list of durations.
pub open spec fn total_seconds(s: Seq<u64>) -> int
    decreases s.len(),
{
    if s.len() == 0 {
        0
    } else {
        total_seconds(s.drop_last()) + s.last()
    }
}

/// Mean of a list of durations in whole seconds, rounded down; zero for none.
pub open spec fn average(s: Seq<u64>) -> int {
    if s.len() == 0 {
        0
    } else {
        total_seconds(s) / (s.len() as int)
    }
}

proof fn lemma_total_remove(s: Seq<u64>, k: int)
    requires
        0 <= k < s.len(),
    ensures
        total_seconds(s) == total_seconds(s.remove(k)) + s[k],
    decreases s.len(),
{
    if k == s.len() - 1 {
        assert(s.remove(k) =~= s.drop_last());
    } else {
        lemma_total_remove(s.drop_last(), k);
        assert(s.remove(k).drop_last() =~= s.drop_last().remove(k));
    }
}

proof fn lemma_total_permutation(a: Seq<u64>, b: Seq<u64>)
    requires
        a.to_multiset() == b.to_multiset(),
    ensures
        total_seconds(a) == total_seconds(b),
    decreases a.len(),
{
    assert(a.to_multiset().len() == a.len());
    assert(b.to_multiset().len() == b.len());
    if a.len() == 0 {
        assert(b.len() == 0);
    } else {
        let x = a.last();
        let rest = a.drop_last();
        assert(a =~= rest.push(x));
        assert(a.to_multiset().count(x) > 0);
        assert(b.contains(x));
        let k = choose|k: int| 0 <= k < b.len() && b[k] == x;
        let b2 = b.remove(k);
        assert(b2.to_multiset() =~= rest.to_multiset());
        lemma_total_permutation(rest, b2);
        lemma_total_remove(b, k);
    }
}

/// The mean of no durations is zero, of one duration is that duration, and
/// does not depend on the order of the durations.
pub proof fn lemma_average_laws(a: Seq<u64>, b: Seq<u64>, d: u64)
    ensures
        average(Seq::<u64>::empty()) == 0,
        average(seq![d]) == d,
        a.to_multiset() == b.to_multiset() ==> average(a) == average(b),
{
    assert(seq![d].drop_last() =~= Seq::<u64>::empty());
    assert(total_seconds(Seq::<u64>::empty()) == 0);
    assert(total_seconds(seq![d]) == d);
    if a.to_multiset() == b.to_multiset() {
        lemma_total_permutation(a, b);
        assert(a.to_multiset().len() == a.len());
        assert(b.to_multiset().len() == b.len());
        assert(a.len() == b.len());
    }
}

/// Mean of the durations in whole seconds, rounded down; zero for none.
pub fn avg_duration(durations: &[u64]) -> (r: u64)
    ensures
        r == average(durations@),
{
    if durations.len() == 0 {
        return 0;
    }
    let mut total: u128 = 0;
    let mut i: usize = 0;
    while i < durations.len()
        invariant
            i <= durations@.len(),
            total == total_seconds(durations@.subrange(0, i as int)),
            total <= i * (u64::MAX as int),
        decreases durations@.len() - i,
    {
        assert(durations@.subrange(0, i + 1).drop_last() =~= durations@.subrange(0, i as int));
        assert(total + durations[i as int] <= (i + 1) * (u64::MAX as int)) by (nonlinear_arith)
            requires
                total <= i * (u64::MAX as int),
                durations[i as int] <= u64::MAX,
        ;
        assert((i + 1) * (u64::MAX as int) <= u128::MAX) by (nonlinear_arith)
            requires
                i < usize::MAX,
        ;
        total = total + durations[i] as u128;
        i = i + 1;
    }
    assert(durations@.subrange(0, i as int) =~= durations@);
    let n = durations.len() as u128;
    let q = total / n;
    assert(q <= u64::MAX) by (nonlinear_arith)
        requires
            total <= n * (u64::MAX as int),
            n > 0,
            q == total / n,
    ;
    q as u64
}

/// One pull request as the month report lists it. `lead_time` is the
/// seconds from creation to the last update.
#[derive(Debug)]
pub struct PRDetail {
    pub created_at: i64,
    pub repo: String,
    pub number: u32,
    pub title: String,
    pub body: Option<String>,
    pub lead_time: u64,
    pub additions: u32,
    pub deletions: u32,
    pub changed_files: u32,
}

fn copy_text(s: &Option<String>) -> (r: Option<String>)
    ensures
        r == *s,
{
    match s {
        Some(t) => Some(t.clone()),
        None => None,
    }
}

impl PRDetail {
    pub open spec fn size_spec(&self, c: SizeConfig) -> PRSize {
        size_class(self.additions as int, self.deletions as int, self.changed_files as int, c)
    }

    pub fn size(&self, size_config: &SizeConfig) -> (r: PRSize)
        ensures
            r == self.size_spec(*size_config),
    {
        compute_pr_size(self.additions, self.deletions, self.changed_files, size_config)
    }

    /// A copy with the same contents.
    pub fn duplicate(&self) -> (r: PRDetail)
        ensures
            r == *self,
    {
        PRDetail {
            created_at: self.created_at,
            repo: self.repo.clone(),
            number: self.number,
            title: self.title.clone(),
            body: copy_text(&self.body),
            lead_time: self.lead_time,
            additions: self.additions,
            deletions: self.deletions,
            changed_files: self.changed_files,
        }
    }
}

/// The report entry of a well-formed pull request.
pub open spec fn detail_of(pr: PullRequest) -> PRDetail {
    PRDetail {
        created_at: pr.created_at,
        repo: pr.repository.name_with_owner,
        number: pr.number,
        title: pr.title,
        body: pr.body,
        lead_time: (pr.updated_at - pr.created_at) as u64,
        additions: pr.additions,
        deletions: pr.deletions,
        changed_files: pr.changed_files,
    }
}

pub open spec fn excluded(cfg: Config, pr: PullRequest) -> bool {
    cfg.excludes(pr.repository.name_with_owner@, pr.title@)
}

pub open spec fn ignored(cfg: Config, pr: PullRequest) -> bool {
    cfg.ignores(pr.repository.name_with_owner@, pr.title@)
}

/// Report entries of the pull requests that count in the metrics: neither
/// excluded nor ignored, in input order.
pub open spec fn counted_details(cfg: Config, prs: Seq<PullRequest>) -> Seq<PRDetail>
    decreases prs.len(),
{
    if prs.len() == 0 {
        Seq::empty()
    } else if !excluded(cfg, prs.last()) && !ignored(cfg, prs.last()) {
        counted_details(cfg, prs.drop_last()).push(detail_of(prs.last()))
    } else {
        counted_details(cfg, prs.drop_last())
    }
}

proof fn lemma_counted_supported(cfg: Config, prs: Seq<PullRequest>)
    requires
        survivors_well_formed(cfg, prs),
    ensures
        forall|k: int|
            0 <= k < counted_details(cfg, prs).len() ==> supported_timestamp(
                #[trigger] counted_details(cfg, prs)[k].created_at as int,
            ),
    decreases prs.len(),
{
    if prs.len() > 0 {
        assert(survivors_well_formed(cfg, prs.drop_last())) by {
            assert forall|i: int|
                0 <= i < prs.drop_last().len() && !excluded(
                    cfg,
                    #[trigger] prs.drop_last()[i],
                ) implies prs.drop_last()[i].well_formed() by {
                assert(prs.drop_last()[i] == prs[i]);
            }
        }
        lemma_counted_supported(cfg, prs.drop_last());
        assert(prs.last() == prs[prs.len() - 1]);
    }
}

/// Every pull request that survives the exclude rules is well formed.
pub open spec fn survivors_well_formed(cfg: Config, prs: Seq<PullRequest>) -> bool {
    forall|i: int|
        0 <= i < prs.len() && !excluded(cfg, #[trigger] prs[i]) ==> prs[i].well_formed()
}

/// `prs[i]` is the first pull request that survives the exclude rules and
/// is not well formed.
pub open spec fn first_malformed(cfg: Config, prs: Seq<PullRequest>, i: int) -> bool {
    &&& 0 <= i < prs.len()
    &&& !excluded(cfg, prs[i])
    &&& !prs[i].well_formed()
    &&& survivors_well_formed(cfg, prs.subrange(0, i))
}

/// The fault that a malformed record is reported as.
pub open spec fn malformed_error(pr: PullRequest) -> AggregateError {
    if pr.created_at > pr.updated_at {
        AggregateError::UpdatedBeforeCreated { number: pr.number }
    } else {
        AggregateError::UnsupportedTimestamp { number: pr.number }
    }
}

/// Why a month could not be aggregated.
pub enum AggregateError {
    /// A filter pattern does not compile.
    Config(ConfigError),
    /// This pull request was last updated before it was created.
    UpdatedBeforeCreated { number: u32 },
    /// A timestamp of this pull request lies outside years 0 to 9999.
    UnsupportedTimestamp { number: u32 },
    /// No pull request counts and the month label is not of the form "YYYY-MM".
    InvalidMonth,
}

/// The logins of every review event on the pull requests that survive the
/// exclude rules, one entry per event.
pub open spec fn review_events(cfg: Config, prs: Seq<PullRequest>) -> Seq<Seq<char>>
    decreases prs.len(),
{
    if prs.len() == 0 {
        Seq::empty()
    } else if excluded(cfg, prs.last()) {
        review_events(cfg, prs.drop_last())
    } else {
        review_events(cfg, prs.drop_last()) + prs.last().review_logins()
    }
}

/// Number of review events on all the pull requests, excluded or not.
pub open spec fn review_total(prs: Seq<PullRequest>) -> int
    decreases prs.len(),
{
    if prs.len() == 0 {
        0
    } else {
        review_total(prs.drop_last()) + prs.last().reviews.nodes@.len()
    }
}

/// `s` with `x` placed after every entry created no later than `x`.
pub open spec fn insert_by_created(s: Seq<PRDetail>, x: PRDetail) -> Seq<PRDetail>
    decreases s.len(),
{
    if s.len() == 0 {
        seq![x]
    } else if s.last().created_at <= x.created_at {
        s.push(x)
    } else {
        insert_by_created(s.drop_last(), x).push(s.last())
    }
}

/// Stable sort by creation time: entries created at the same second keep
/// their order.
pub open spec fn sort_by_created(s: Seq<PRDetail>) -> Seq<PRDetail>
    decreases s.len(),
{
    if s.len() == 0 {
        s
    } else {
        insert_by_created(sort_by_created(s.drop_last()), s.last())
    }
}

pub open spec fn created_ascending(s: Seq<PRDetail>) -> bool {
    forall|i: int, j: int| 0 <= i <= j < s.len() ==> s[i].created_at <= s[j].created_at
}

proof fn lemma_insert_at(s: Seq<PRDetail>, x: PRDetail, j: int)
    requires
        0 <= j <= s.len(),
        j == 0 || s[j - 1].created_at <= x.created_at,
        forall|k: int| j <= k < s.len() ==> s[k].created_at > x.created_at,
    ensures
        insert_by_created(s, x) == s.insert(j, x),
    decreases s.len(),
{
    if s.len() == 0 {
        assert(s.insert(j, x) =~= seq![x]);
    } else if j == s.len() {
        assert(s.insert(j, x) =~= s.push(x));
    } else {
        lemma_insert_at(s.drop_last(), x, j);
        assert(s.insert(j, x) =~= s.drop_last().insert(j, x).push(s.last()));
    }
}

proof fn lemma_insert_facts(t: Seq<PRDetail>, x: PRDetail, b: int)
    requires
        created_ascending(t),
    ensures
        insert_by_created(t, x).len() == t.len() + 1,
        created_ascending(insert_by_created(t, x)),
        insert_by_created(t, x).to_multiset() == t.to_multiset().insert(x),
        (forall|k: int| 0 <= k < t.len() ==> t[k].created_at <= b) && x.created_at <= b ==> forall|
            i: int,
        | 0 <= i < t.len() + 1 ==> #[trigger] insert_by_created(t, x)[i].created_at <= b,
    decreases t.len(),
{
    if t.len() == 0 {
        assert(seq![x] =~= Seq::<PRDetail>::empty().push(x));
    } else if t.last().created_at <= x.created_at {
    } else {
        let u = t.drop_last();
        let y = t.last();
        lemma_insert_facts(u, x, b);
        lemma_insert_facts(u, x, y.created_at as int);
        assert(t =~= u.push(y));
        assert(insert_by_created(u, x).push(y).to_multiset() =~= u.to_multiset().insert(x).insert(
            y,
        ));
        assert(t.to_multiset() =~= u.to_multiset().insert(y));
    }
}

proof fn lemma_sort_facts(s: Seq<PRDetail>)
    ensures
        sort_by_created(s).len() == s.len(),
        created_ascending(sort_by_created(s)),
        sort_by_created(s).to_multiset() == s.to_multiset(),
    decreases s.len(),
{
    if s.len() > 0 {
        lemma_sort_facts(s.drop_last());
        lemma_insert_facts(sort_by_created(s.drop_last()), s.last(), 0);
        assert(s =~= s.drop_last().push(s.last()));
    }
}

/// Stable sort of the entries by creation time.
fn sort_details(v: Vec<PRDetail>) -> (r: Vec<PRDetail>)
    ensures
        r@ == sort_by_created(v@),
{
    let mut sorted: Vec<PRDetail> = Vec::new();
    let mut v = v;
    let ghost orig = v@;
    let mut i: usize = 0;
    while i < v.len()
        invariant
            v@ == orig,
            i <= v@.len(),
            sorted@ == sort_by_created(orig.subrange(0, i as int)),
        decreases v@.len() - i,
    {
        let x = v[i].duplicate();
        proof {
            assert(orig.subrange(0, i + 1).drop_last() =~= orig.subrange(0, i as int));
        }
        let mut j: usize = sorted.len();
        while j > 0 && sorted[j - 1].created_at > x.created_at
            invariant
                j <= sorted@.len(),
                forall|k: int| j <= k < sorted@.len() ==> sorted@[k].created_at > x.created_at,
            decreases j,
        {
            j = j - 1;
        }
        proof {
            lemma_insert_at(sorted@, x, j as int);
        }
        sorted.insert(j, x);
        i = i + 1;
    }
    assert(orig.subrange(0, i as int) =~= orig);
    sorted
}

proof fn lemma_review_total_prefix(prs: Seq<PullRequest>, i: int)
    requires
        0 <= i <= prs.len(),
    ensures
        review_total(prs.subrange(0, i)) <= review_total(prs),
    decreases prs.len(),
{
    if i < prs.len() {
        lemma_review_total_prefix(prs.drop_last(), i);
        assert(prs.drop_last().subrange(0, i) =~= prs.subrange(0, i));
    } else {
        assert(prs.subrange(0, i) =~= prs);
    }
}

proof fn lemma_review_events_len(cfg: Config, prs: Seq<PullRequest>)
    ensures
        review_events(cfg, prs).len() <= review_total(prs),
    decreases prs.len(),
{
    if prs.len() > 0 {
        lemma_review_events_len(cfg, prs.drop_last());
    }
}

fn is_excluded(cfg: &Config, pr: &PullRequest) -> (r: bool)
    requires
        cfg.filter.patterns_valid(),
    ensures
        r == excluded(*cfg, *pr),
{
    cfg.should_exclude_pr_title(pr.title.as_str()) || cfg.should_exclude_repo(
        pr.repository.name_with_owner.as_str(),
    )
}

fn is_ignored(cfg: &Config, pr: &PullRequest) -> (r: bool)
    requires
        cfg.filter.patterns_valid(),
    ensures
        r == ignored(*cfg, *pr),
{
    cfg.should_ignore_repo(pr.repository.name_with_owner.as_str()) || cfg.should_ignore_pr_title(
        pr.title.as_str(),
    )
}

fn detail_from(pr: &PullRequest) -> (r: PRDetail)
    requires
        pr.well_formed(),
    ensures
        r == detail_of(*pr),
{
    PRDetail {
        created_at: pr.created_at,
        repo: pr.repository.name_with_owner.clone(),
        number: pr.number,
        title: pr.title.clone(),
        body: copy_text(&pr.body),
        lead_time: (pr.updated_at - pr.created_at) as u64,
        additions: pr.additions,
        deletions: pr.deletions,
        changed_files: pr.changed_files,
    }
}

/// One pass over the input: applies the exclude rules, checks the records
/// that survive them, tallies their review events, and keeps the entries
/// that no ignore rule removes.
fn filter_and_tally(prs: &Vec<PullRequest>, cfg: &Config) -> (r: Result<
    (Vec<PRDetail>, Vec<NameCount>),
    AggregateError,
>)
    requires
        cfg.filter.patterns_valid(),
        review_total(prs@) <= usize::MAX,
    ensures
        r is Ok <==> survivors_well_formed(*cfg, prs@),
        r matches Err(e) ==> exists|i: int|
            first_malformed(*cfg, prs@, i) && e == malformed_error(#[trigger] prs@[i]),
        r matches Ok((details, tally)) ==> details@ == counted_details(*cfg, prs@) && tally_of(
            tally@,
            review_events(*cfg, prs@),
        ),
{
    let mut details: Vec<PRDetail> = Vec::new();
    let mut tally: Vec<NameCount> = Vec::new();
    let mut i: usize = 0;
    while i < prs.len()
        invariant
            i <= prs@.len(),
            cfg.filter.patterns_valid(),
            review_total(prs@) <= usize::MAX,
            survivors_well_formed(*cfg, prs@.subrange(0, i as int)),
            details@ == counted_details(*cfg, prs@.subrange(0, i as int)),
            tally_of(tally@, review_events(*cfg, prs@.subrange(0, i as int))),
        decreases prs@.len() - i,
    {
        let pr = &prs[i];
        let ghost before = prs@.subrange(0, i as int);
        let ghost upto = prs@.subrange(0, i + 1);
        assert(upto.drop_last() =~= before);
        assert(upto.last() == *pr);
        if !is_excluded(cfg, pr) {
            if !(crate::calendar::EARLIEST_TIMESTAMP <= pr.created_at
                && pr.created_at <= crate::calendar::LATEST_TIMESTAMP
                && crate::calendar::EARLIEST_TIMESTAMP <= pr.updated_at
                && pr.updated_at <= crate::calendar::LATEST_TIMESTAMP && pr.created_at
                <= pr.updated_at) {
                proof {
                    assert(first_malformed(*cfg, prs@, i as int));
                }
                if pr.created_at > pr.updated_at {
                    return Err(AggregateError::UpdatedBeforeCreated { number: pr.number });
                }
                return Err(AggregateError::UnsupportedTimestamp { number: pr.number });
            }
            let ghost base = review_events(*cfg, before);
            let ghost logins = pr.review_logins();
            proof {
                lemma_review_events_len(*cfg, before);
                lemma_review_total_prefix(prs@, i + 1);
            }
            let mut j: usize = 0;
            while j < pr.reviews.nodes.len()
                invariant
                    j <= pr.reviews.nodes@.len(),
                    logins == pr.review_logins(),
                    base.len() + logins.len() <= review_total(upto),
                    review_total(upto) <= usize::MAX,
                    tally_of(tally@, base + logins.subrange(0, j as int)),
                decreases pr.reviews.nodes@.len() - j,
            {
                assert(base + logins.subrange(0, j + 1) =~= (base + logins.subrange(
                    0,
                    j as int,
                )).push(pr.reviews.nodes@[j as int].author.login@));
                add_occurrence(
                    &mut tally,
                    &pr.reviews.nodes[j].author.login,
                    Ghost(base + logins.subrange(0, j as int)),
                );
                j = j + 1;
            }
            assert(logins.subrange(0, j as int) =~= logins);
            if !is_ignored(cfg, pr) {
                details.push(detail_from(pr));
            }
        }
        i = i + 1;
    }
    assert(prs@.subrange(0, i as int) =~= prs@);
    Ok((details, tally))
}

/// The entries created within `[lo, hi]`, in order.
pub open spec fn in_window(s: Seq<PRDetail>, lo: int, hi: int) -> Seq<PRDetail>
    decreases s.len(),
{
    if s.len() == 0 {
        s
    } else if lo <= s.last().created_at <= hi {
        in_window(s.drop_last(), lo, hi).push(s.last())
    } else {
        in_window(s.drop_last(), lo, hi)
    }
}

/// The entries of repository `name`, in order.
pub open spec fn of_repo(s: Seq<PRDetail>, name: Seq<char>) -> Seq<PRDetail>
    decreases s.len(),
{
    if s.len() == 0 {
        s
    } else if s.last().repo@ == name {
        of_repo(s.drop_last(), name).push(s.last())
    } else {
        of_repo(s.drop_last(), name)
    }
}

pub open spec fn repo_names(s: Seq<PRDetail>) -> Seq<Seq<char>> {
    s.map_values(|d: PRDetail| d.repo@)
}

pub open spec fn lead_times(s: Seq<PRDetail>) -> Seq<u64> {
    s.map_values(|d: PRDetail| d.lead_time)
}

/// Number of entries of category `size`.
pub open spec fn size_count(s: Seq<PRDetail>, c: SizeConfig, size: PRSize) -> nat
    decreases s.len(),
{
    if s.len() == 0 {
        0
    } else {
        size_count(s.drop_last(), c, size) + if s.last().size_spec(c) == size {
            1nat
        } else {
            0nat
        }
    }
}

pub(crate) proof fn lemma_window_len(s: Seq<PRDetail>, lo: int, hi: int)
    ensures
        in_window(s, lo, hi).len() <= s.len(),
    decreases s.len(),
{
    if s.len() > 0 {
        lemma_window_len(s.drop_last(), lo, hi);
    }
}

proof fn lemma_repo_len(s: Seq<PRDetail>, name: Seq<char>)
    ensures
        of_repo(s, name).len() == crate::ranking::occurrences(repo_names(s), name),
    decreases s.len(),
{
    if s.len() > 0 {
        lemma_repo_len(s.drop_last(), name);
        assert(repo_names(s).drop_last() =~= repo_names(s.drop_last()));
    }
}

fn copy_window(s: &Vec<PRDetail>, lo: i64, hi: i64) -> (r: Vec<PRDetail>)
    ensures
        r@ == in_window(s@, lo as int, hi as int),
{
    let mut out: Vec<PRDetail> = Vec::new();
    let mut i: usize = 0;
    while i < s.len()
        invariant
            i <= s@.len(),
            out@ == in_window(s@.subrange(0, i as int), lo as int, hi as int),
        decreases s@.len() - i,
    {
        assert(s@.subrange(0, i + 1).drop_last() =~= s@.subrange(0, i as int));
        if lo <= s[i].created_at && s[i].created_at <= hi {
            out.push(s[i].duplicate());
        }
        i = i + 1;
    }
    assert(s@.subrange(0, i as int) =~= s@);
    out
}

fn copy_repo(s: &Vec<PRDetail>, name: &String) -> (r: Vec<PRDetail>)
    ensures
        r@ == of_repo(s@, name@),
{
    let mut out: Vec<PRDetail> = Vec::new();
    let mut i: usize = 0;
    while i < s.len()
        invariant
            i <= s@.len(),
            out@ == of_repo(s@.subrange(0, i as int), name@),
        decreases s@.len() - i,
    {
        assert(s@.subrange(0, i + 1).drop_last() =~= s@.subrange(0, i as int));
        if s[i].repo == *name {
            out.push(s[i].duplicate());
        }
        i = i + 1;
    }
    assert(s@.subrange(0, i as int) =~= s@);
    out
}

fn lead_times_of(s: &Vec<PRDetail>) -> (r: Vec<u64>)
    ensures
        r@ == lead_times(s@),
{
    let mut out: Vec<u64> = Vec::new();
    let mut i: usize = 0;
    while i < s.len()
        invariant
            i <= s@.len(),
            out@ == lead_times(s@.subrange(0, i as int)),
        decreases s@.len() - i,
    {
        assert(lead_times(s@.subrange(0, i + 1)) =~= lead_times(s@.subrange(0, i as int)).push(
            s@[i as int].lead_time,
        ));
        out.push(s[i].lead_time);
        i = i + 1;
    }
    assert(s@.subrange(0, i as int) =~= s@);
    out
}

/// Mean lead time of the entries.
fn avg_lead_time(s: &Vec<PRDetail>) -> (r: u64)
    ensures
        r == average(lead_times(s@)),
{
    let times = lead_times_of(s);
    avg_duration(times.as_slice())
}

/// Number of entries in each size category: S, M, L, XL.
pub fn compute_size_counts(prs: &Vec<PRDetail>, size_config: &SizeConfig) -> (r: (
    usize,
    usize,
    usize,
    usize,
))
    ensures
        r.0 == size_count(prs@, *size_config, PRSize::S),
        r.1 == size_count(prs@, *size_config, PRSize::M),
        r.2 == size_count(prs@, *size_config, PRSize::L),
        r.3 == size_count(prs@, *size_config, PRSize::XL),
{
    let mut size_s: usize = 0;
    let mut size_m: usize = 0;
    let mut size_l: usize = 0;
    let mut size_xl: usize = 0;
    let mut i: usize = 0;
    while i < prs.len()
        invariant
            i <= prs@.len(),
            size_s == size_count(prs@.subrange(0, i as int), *size_config, PRSize::S),
            size_m == size_count(prs@.subrange(0, i as int), *size_config, PRSize::M),
            size_l == size_count(prs@.subrange(0, i as int), *size_config, PRSize::L),
            size_xl == size_count(prs@.subrange(0, i as int), *size_config, PRSize::XL),
            size_s + size_m + size_l + size_xl == i,
        decreases prs@.len() - i,
    {
        assert(prs@.subrange(0, i + 1).drop_last() =~= prs@.subrange(0, i as int));
        match prs[i].size(size_config) {
            PRSize::S => size_s = size_s + 1,
            PRSize::M => size_m = size_m + 1,
            PRSize::L => size_l = size_l + 1,
            PRSize::XL => size_xl = size_xl + 1,
        }
        i = i + 1;
    }
    assert(prs@.subrange(0, i as int) =~= prs@);
    (size_s, size_m, size_l, size_xl)
}

/// Counts and mean lead time of one week window.
#[derive(Clone, Copy, Debug, PartialEq, Eq, Structural)]
pub struct WeekData {
    /// 1 for the first week.
    pub week_num: usize,
    /// Monday 00:00:00 UTC.
    pub week_start: i64,
    /// Sunday 23:59:59 UTC.
    pub week_end: i64,
    pub pr_count: usize,
    pub avg_lead_time: u64,
}

/// Start of window `k` of the grid that starts at `first`.
pub open spec fn window_start(first: int, k: int) -> int {
    first + k * 604800
}

/// Last second of window `k` of the grid that starts at `first`.
pub open spec fn window_end(first: int, k: int) -> int {
    window_start(first, k) + 604799
}

/// The summary of window `k`, given its entries.
pub open spec fn week_summary(first: int, k: int, members: Seq<PRDetail>) -> WeekData {
    WeekData {
        week_num: (k + 1) as usize,
        week_start: window_start(first, k) as i64,
        week_end: window_end(first, k) as i64,
        pr_count: members.len() as usize,
        avg_lead_time: average(lead_times(members)) as u64,
    }
}

/// Builds `count` contiguous week windows from `first` and places each entry
/// in the window that holds its creation time.
fn group_prs_by_week(prs: &Vec<PRDetail>, first: i64, count: usize) -> (r: (
    Vec<WeekData>,
    Vec<Vec<PRDetail>>,
))
    requires
        crate::calendar::EARLIEST_TIMESTAMP - 604800 <= first,
        first + count * 604800 <= crate::calendar::LATEST_TIMESTAMP + 604800,
    ensures
        r.0@.len() == count,
        r.1@.len() == count,
        forall|k: int|
            0 <= k < count ==> {
                &&& #[trigger] r.1@[k]@ == in_window(prs@, window_start(first as int, k), window_end(first as int, k))
                &&& r.0@[k] == week_summary(first as int, k, r.1@[k]@)
            },
{
    let mut weeks: Vec<WeekData> = Vec::new();
    let mut lists: Vec<Vec<PRDetail>> = Vec::new();
    let mut k: usize = 0;
    while k < count
        invariant
            k <= count,
            crate::calendar::EARLIEST_TIMESTAMP - 604800 <= first,
            first + count * 604800 <= crate::calendar::LATEST_TIMESTAMP + 604800,
            weeks@.len() == k,
            lists@.len() == k,
            forall|j: int|
                0 <= j < k ==> {
                    &&& #[trigger] lists@[j]@ == in_window(prs@, window_start(first as int, j), window_end(first as int, j))
                    &&& weeks@[j] == week_summary(first as int, j, lists@[j]@)
                },
        decreases count - k,
    {
        let start: i64 = first + (k as i64) * SECONDS_PER_WEEK;
        let end: i64 = start + (SECONDS_PER_WEEK - 1);
        let members = copy_window(prs, start, end);
        proof {
            lemma_window_len(prs@, start as int, end as int);
        }
        let week = WeekData {
            week_num: k + 1,
            week_start: start,
            week_end: end,
            pr_count: members.len(),
            avg_lead_time: avg_lead_time(&members),
        };
        weeks.push(week);
        lists.push(members);
        k = k + 1;
    }
    (weeks, lists)
}

/// Counts, mean lead time and size histogram of one repository.
pub struct RepoData {
    pub name: String,
    pub pr_count: usize,
    pub avg_lead_time: u64,
    pub size_s: usize,
    pub size_m: usize,
    pub size_l: usize,
    pub size_xl: usize,
}

/// `r` summarises `members`, the entries of repository `r.name`.
pub open spec fn repo_summary(r: RepoData, members: Seq<PRDetail>, c: SizeConfig) -> bool {
    &&& r.pr_count == members.len()
    &&& r.avg_lead_time == average(lead_times(members))
    &&& r.size_s == size_count(members, c, PRSize::S)
    &&& r.size_m == size_count(members, c, PRSize::M)
    &&& r.size_l == size_count(members, c, PRSize::L)
    &&& r.size_xl == size_count(members, c, PRSize::XL)
}

/// The repositories of the entries, most entries first, names in ascending
/// byte order among equals, each with its entries.
pub open spec fn repos_of(
    repos: Seq<RepoData>,
    lists: Seq<Vec<PRDetail>>,
    prs: Seq<PRDetail>,
    c: SizeConfig,
) -> bool {
    &&& repos.len() == lists.len()
    &&& forall|k: int|
        0 <= k < repos.len() ==> {
            &&& #[trigger] lists[k]@ == of_repo(prs, repos[k].name@)
            &&& repo_summary(repos[k], lists[k]@, c)
            &&& repo_names(prs).contains(repos[k].name@)
        }
    &&& forall|x: Seq<char>|
        #[trigger] repo_names(prs).contains(x) ==> exists|k: int|
            0 <= k < repos.len() && repos[k].name@ == x
    &&& forall|i: int, j: int|
        0 <= i < j < repos.len() ==> crate::ranking::ranks_before(
            #[trigger] repos[i].pr_count as int,
            repos[i].name@,
            #[trigger] repos[j].pr_count as int,
            repos[j].name@,
        )
}

/// Groups the entries by repository and ranks the groups.
fn build_repo_data(prs: &Vec<PRDetail>, size_config: &SizeConfig) -> (r: (
    Vec<RepoData>,
    Vec<Vec<PRDetail>>,
))
    ensures
        repos_of(r.0@, r.1@, prs@, *size_config),
{
    let mut tally: Vec<NameCount> = Vec::new();
    let mut i: usize = 0;
    while i < prs.len()
        invariant
            i <= prs@.len(),
            tally_of(tally@, repo_names(prs@.subrange(0, i as int))),
        decreases prs@.len() - i,
    {
        assert(repo_names(prs@.subrange(0, i + 1)) =~= repo_names(prs@.subrange(0, i as int)).push(
            prs@[i as int].repo@,
        ));
        add_occurrence(&mut tally, &prs[i].repo, Ghost(repo_names(prs@.subrange(0, i as int))));
        i = i + 1;
    }
    assert(prs@.subrange(0, i as int) =~= prs@);
    let ranked = crate::ranking::rank(&tally, Ghost(repo_names(prs@)));
    let mut repos: Vec<RepoData> = Vec::new();
    let mut k: usize = 0;
    while k < ranked.len()
        invariant
            k <= ranked@.len(),
            tally_of(ranked@, repo_names(prs@)),
            crate::ranking::ranked(ranked@),
            repos@.len() == k,
            forall|j: int|
                0 <= j < k ==> {
                    &&& repo_summary(
                        #[trigger] repos@[j],
                        of_repo(prs@, repos@[j].name@),
                        *size_config,
                    )
                    &&& repos@[j].name@ == ranked@[j].name@
                    &&& repos@[j].pr_count == ranked@[j].count
                },
        decreases ranked@.len() - k,
    {
        let members = copy_repo(prs, &ranked[k].name);
        proof {
            lemma_repo_len(prs@, ranked@[k as int].name@);
        }
        let (size_s, size_m, size_l, size_xl) = compute_size_counts(&members, size_config);
        let repo = RepoData {
            name: ranked[k].name.clone(),
            pr_count: members.len(),
            avg_lead_time: avg_lead_time(&members),
            size_s,
            size_m,
            size_l,
            size_xl,
        };
        repos.push(repo);
        k = k + 1;
    }
    let lists = build_prs_by_repo(&repos, prs);
    proof {
        assert forall|j: int| 0 <= j < repos@.len() implies repo_names(prs@).contains(
            #[trigger] repos@[j].name@,
        ) by {
            assert(repo_summary(repos@[j], of_repo(prs@, repos@[j].name@), *size_config));
            assert(ranked@[j].count == crate::ranking::occurrences(
                repo_names(prs@),
                ranked@[j].name@,
            ) && ranked@[j].count > 0);
            crate::ranking::lemma_occurrences_bound(repo_names(prs@), ranked@[j].name@);
        }
        assert forall|x: Seq<char>| #[trigger] repo_names(prs@).contains(x) implies exists|j: int|
            0 <= j < repos@.len() && repos@[j].name@ == x by {
            let j = choose|j: int| 0 <= j < ranked@.len() && ranked@[j].name@ == x;
            assert(repo_summary(repos@[j], of_repo(prs@, repos@[j].name@), *size_config));
            assert(repos@[j].name@ == x);
        }
        assert forall|a: int, b: int| 0 <= a < b < repos@.len() implies crate::ranking::ranks_before(
            #[trigger] repos@[a].pr_count as int,
            repos@[a].name@,
            #[trigger] repos@[b].pr_count as int,
            repos@[b].name@,
        ) by {
            assert(repo_summary(repos@[a], of_repo(prs@, repos@[a].name@), *size_config));
            assert(repo_summary(repos@[b], of_repo(prs@, repos@[b].name@), *size_config));
            assert(crate::ranking::ranks_before(
                ranked@[a].count as int,
                ranked@[a].name@,
                ranked@[b].count as int,
                ranked@[b].name@,
            ));
        }
        assert forall|j: int| 0 <= j < repos@.len() implies {
            &&& #[trigger] lists@[j]@ == of_repo(prs@, repos@[j].name@)
            &&& repo_summary(repos@[j], lists@[j]@, *size_config)
            &&& repo_names(prs@).contains(repos@[j].name@)
        } by {
            assert(repo_summary(repos@[j], of_repo(prs@, repos@[j].name@), *size_config));
        }
    }
    (repos, lists)
}

/// For each repository, in the order given, its entries among `prs`.
pub fn build_prs_by_repo(repos: &Vec<RepoData>, prs: &Vec<PRDetail>) -> (r: Vec<Vec<PRDetail>>)
    ensures
        r@.len() == repos@.len(),
        forall|k: int| 0 <= k < repos@.len() ==> #[trigger] r@[k]@ == of_repo(prs@, repos@[k].name@),
{
    let mut lists: Vec<Vec<PRDetail>> = Vec::new();
    let mut k: usize = 0;
    while k < repos.len()
        invariant
            k <= repos@.len(),
            lists@.len() == k,
            forall|j: int| 0 <= j < k ==> #[trigger] lists@[j]@ == of_repo(prs@, repos@[j].name@),
        decreases repos@.len() - k,
    {
        lists.push(copy_repo(prs, &repos[k].name));
        k = k + 1;
    }
    lists
}

/// How often one login reviewed the month's pull requests.
pub struct ReviewerData {
    pub login: String,
    pub pr_count: usize,
}

/// Each login of `events` once, with its number of review events, most
/// events first, logins in ascending byte order among equals.
pub open spec fn reviewers_of(r: Seq<ReviewerData>, events: Seq<Seq<char>>) -> bool {
    &&& forall|k: int|
        0 <= k < r.len() ==> #[trigger] r[k].pr_count == occurrences(events, r[k].login@)
            && r[k].pr_count > 0
    &&& forall|x: Seq<char>|
        #[trigger] events.contains(x) ==> exists|k: int| 0 <= k < r.len() && r[k].login@ == x
    &&& forall|i: int, j: int|
        0 <= i < j < r.len() ==> ranks_before(
            #[trigger] r[i].pr_count as int,
            r[i].login@,
            #[trigger] r[j].pr_count as int,
            r[j].login@,
        )
}

fn reviewers_from(t: &Vec<NameCount>, Ghost(events): Ghost<Seq<Seq<char>>>) -> (r: Vec<
    ReviewerData,
>)
    requires
        tally_of(t@, events),
        ranked(t@),
    ensures
        reviewers_of(r@, events),
{
    let mut out: Vec<ReviewerData> = Vec::new();
    let mut k: usize = 0;
    while k < t.len()
        invariant
            k <= t@.len(),
            out@.len() == k,
            forall|j: int|
                0 <= j < k ==> #[trigger] out@[j].login@ == t@[j].name@ && out@[j].pr_count
                    == t@[j].count,
        decreases t@.len() - k,
    {
        out.push(ReviewerData { login: t[k].name.clone(), pr_count: t[k].count });
        k = k + 1;
    }
    proof {
        assert forall|x: Seq<char>| #[trigger] events.contains(x) implies exists|j: int|
            0 <= j < out@.len() && out@[j].login@ == x by {
            let j = choose|j: int| 0 <= j < t@.len() && t@[j].name@ == x;
            assert(out@[j].login@ == t@[j].name@);
        }
        assert forall|a: int, b: int| 0 <= a < b < out@.len() implies ranks_before(
            #[trigger] out@[a].pr_count as int,
            out@[a].login@,
            #[trigger] out@[b].pr_count as int,
            out@[b].login@,
        ) by {
            assert(out@[a].login@ == t@[a].name@);
            assert(out@[b].login@ == t@[b].name@);
            assert(ranks_before(t@[a].count as int, t@[a].name@, t@[b].count as int, t@[b].name@));
        }
    }
    out
}

/// An exact rate: `numerator / denominator`.
#[derive(Clone, Copy, Debug, PartialEq, Eq, Structural)]
pub struct Ratio {
    pub numerator: u128,
    pub denominator: u128,
}

/// The aggregate of one month.
pub struct MonthData {
    /// First day of the month at 00:00:00 UTC.
    pub month_start: i64,
    pub total_prs: usize,
    pub avg_lead_time: u64,
    /// Pull requests per week.
    pub frequency: Ratio,
    pub size_s: usize,
    pub size_m: usize,
    pub size_l: usize,
    pub size_xl: usize,
    pub weeks: Vec<WeekData>,
    pub repos: Vec<RepoData>,
    pub prs_by_week: Vec<Vec<PRDetail>>,
    pub prs_by_repo: Vec<Vec<PRDetail>>,
    pub reviewers: Vec<ReviewerData>,
    pub reviewed_count: usize,
}

/// The entries that count in the metrics, sorted by creation time.
pub open spec fn metrics(cfg: Config, prs: Seq<PullRequest>) -> Seq<PRDetail> {
    sort_by_created(counted_details(cfg, prs))
}

/// Monday 00:00:00 UTC of the week of the earliest entry.
pub open spec fn first_week_start(m: Seq<PRDetail>) -> int {
    week_one_start(m[0].created_at as int)
}

/// Number of week windows from the first week to the latest entry.
pub open spec fn week_total(m: Seq<PRDetail>) -> int {
    (m.last().created_at - first_week_start(m)) / 86400 / 7 + 1
}

/// Whole days from the earliest to the latest entry, at least one.
pub open spec fn span_days(m: Seq<PRDetail>) -> int {
    let d = (m.last().created_at - m[0].created_at) / 86400;
    if d < 1 {
        1
    } else {
        d
    }
}

/// `count / max(1, span_days / 7)`, as an exact ratio.
pub open spec fn frequency_of(count: int, span: int) -> Ratio {
    Ratio { numerator: (7 * count) as u128, denominator: (if span < 7 { 7 } else { span }) as u128 }
}

/// `r` is the aggregate of the non-empty, time-sorted entries `m`.
pub open spec fn summary_of(r: MonthData, m: Seq<PRDetail>, c: SizeConfig) -> bool {
    let first = first_week_start(m);
    &&& r.month_start == month_start_of(
        calendar_year(m[0].created_at as int),
        calendar_month(m[0].created_at as int),
    )
    &&& r.total_prs == m.len()
    &&& r.avg_lead_time == average(lead_times(m))
    &&& r.frequency == frequency_of(m.len() as int, span_days(m))
    &&& r.size_s == size_count(m, c, PRSize::S)
    &&& r.size_m == size_count(m, c, PRSize::M)
    &&& r.size_l == size_count(m, c, PRSize::L)
    &&& r.size_xl == size_count(m, c, PRSize::XL)
    &&& r.weeks@.len() == week_total(m)
    &&& r.prs_by_week@.len() == week_total(m)
    &&& forall|k: int|
        0 <= k < week_total(m) ==> {
            &&& #[trigger] r.prs_by_week@[k]@ == in_window(
                m,
                window_start(first, k),
                window_end(first, k),
            )
            &&& r.weeks@[k] == week_summary(first, k, r.prs_by_week@[k]@)
        }
    &&& repos_of(r.repos@, r.prs_by_repo@, m, c)
}

/// `r` is the aggregate of a month in which nothing counts.
pub open spec fn empty_month(r: MonthData, start: int, reviewed_count: usize) -> bool {
    &&& r.month_start == start
    &&& r.total_prs == 0
    &&& r.avg_lead_time == 0
    &&& r.frequency == Ratio { numerator: 0, denominator: 1 }
    &&& r.size_s == 0 && r.size_m == 0 && r.size_l == 0 && r.size_xl == 0
    &&& r.weeks@.len() == 0 && r.repos@.len() == 0
    &&& r.prs_by_week@.len() == 0 && r.prs_by_repo@.len() == 0
    &&& r.reviewers@.len() == 0
    &&& r.reviewed_count == reviewed_count
}

pub open spec fn is_digit(b: u8) -> bool {
    48 <= b <= 57
}

/// Year and month of a label "YYYY-MM" whose month lies in 1 to 12.
pub open spec fn month_label(b: Seq<u8>) -> Option<(int, int)> {
    if b.len() == 7 && is_digit(b[0]) && is_digit(b[1]) && is_digit(b[2]) && is_digit(b[3])
        && b[4] == 45 && is_digit(b[5]) && is_digit(b[6]) {
        let year = (b[0] - 48) * 1000 + (b[1] - 48) * 100 + (b[2] - 48) * 10 + (b[3] - 48);
        let month = (b[5] - 48) * 10 + (b[6] - 48);
        if 1 <= month <= 12 {
            Some((year, month))
        } else {
            None
        }
    } else {
        None
    }
}

/// Year and month of a label "YYYY-MM".
pub fn parse_month(month: &str) -> (r: Option<(i32, u32)>)
    ensures
        match month_label(month.spec_bytes()) {
            Some((y, m)) => r == Some((y as i32, m as u32)),
            None => r is None,
        },
{
    let b = month.as_bytes();
    if b.len() != 7 {
        return None;
    }
    let mut i: usize = 0;
    while i < 7
        invariant
            b@ == month.spec_bytes(),
            b@.len() == 7,
            i <= 7,
            forall|j: int| 0 <= j < i && j != 4 ==> is_digit(#[trigger] b@[j]),
        decreases 7 - i,
    {
        if i != 4 && !(48 <= b[i] && b[i] <= 57) {
            return None;
        }
        i = i + 1;
    }
    if b[4] != 45 {
        return None;
    }
    let year: i32 = (b[0] - 48) as i32 * 1000 + (b[1] - 48) as i32 * 100 + (b[2] - 48) as i32 * 10
        + (b[3] - 48) as i32;
    let m: u32 = (b[5] - 48) as u32 * 10 + (b[6] - 48) as u32;
    if m < 1 || m > 12 {
        return None;
    }
    Some((year, m))
}

impl MonthData {
    /// The aggregate of a month in which nothing counts.
    pub fn empty(month_start: i64, reviewed_count: usize) -> (r: Self)
        ensures
            empty_month(r, month_start as int, reviewed_count),
    {
        MonthData {
            month_start,
            total_prs: 0,
            avg_lead_time: 0,
            frequency: Ratio { numerator: 0, denominator: 1 },
            size_s: 0,
            size_m: 0,
            size_l: 0,
            size_xl: 0,
            weeks: Vec::new(),
            repos: Vec::new(),
            prs_by_week: Vec::new(),
            prs_by_repo: Vec::new(),
            reviewers: Vec::new(),
            reviewed_count,
        }
    }
}

/// Aggregates one month of pull requests.
///
/// Exclude rules drop a pull request from everything, review tallies
/// included; ignore rules then drop it from the metrics. When nothing counts,
/// the result is the empty month anchored at the month of `month`
/// ("YYYY-MM").
pub fn build_month_data(
    month: &str,
    prs: Vec<PullRequest>,
    reviewed_count: usize,
    cfg: &Config,
) -> (r: Result<MonthData, AggregateError>)
    requires
        review_total(prs@) <= usize::MAX,
    ensures
        !cfg.filter.patterns_valid() <==> r matches Err(AggregateError::Config(_)),
        cfg.filter.patterns_valid() && !survivors_well_formed(*cfg, prs@) ==> exists|i: int|
            first_malformed(*cfg, prs@, i) && r == Err::<MonthData, AggregateError>(
                malformed_error(#[trigger] prs@[i]),
            ),
        cfg.filter.patterns_valid() && survivors_well_formed(*cfg, prs@) && metrics(
            *cfg,
            prs@,
        ).len() == 0 ==> match month_label(month.spec_bytes()) {
            Some((y, m)) => (r matches Ok(d) && empty_month(
                d,
                month_start_of(y, m),
                reviewed_count,
            )),
            None => r matches Err(AggregateError::InvalidMonth),
        },
        cfg.filter.patterns_valid() && survivors_well_formed(*cfg, prs@) && metrics(
            *cfg,
            prs@,
        ).len() > 0 ==> (r matches Ok(d) && summary_of(d, metrics(*cfg, prs@), cfg.size)
            && reviewers_of(d.reviewers@, review_events(*cfg, prs@)) && d.reviewed_count
            == reviewed_count),
        r matches Ok(d) ==> week_pr_total(d.weeks@) == d.total_prs,
        r matches Ok(d) ==> (d.total_prs > 0 ==> first_week_law(d, metrics(*cfg, prs@))),
        r matches Ok(d) ==> repo_pr_total(d.repos@) == d.total_prs && repo_size_total(
            d.repos@,
            PRSize::S,
        ) == d.size_s && repo_size_total(d.repos@, PRSize::M) == d.size_m && repo_size_total(
            d.repos@,
            PRSize::L,
        ) == d.size_l && repo_size_total(d.repos@, PRSize::XL) == d.size_xl,
{
    match cfg.filter.validate() {
        Ok(()) => {},
        Err(e) => {
            return Err(AggregateError::Config(e));
        },
    }
    let (details, tally) = match filter_and_tally(&prs, cfg) {
        Ok(found) => found,
        Err(e) => {
            return Err(e);
        },
    };
    let m = sort_details(details);
    proof {
        lemma_sort_facts(counted_details(*cfg, prs@));
        lemma_counted_supported(*cfg, prs@);
        assert forall|k: int| 0 <= k < m@.len() implies supported_timestamp(
            #[trigger] m@[k].created_at as int,
        ) by {
            assert(m@.to_multiset().count(m@[k]) > 0);
            assert(counted_details(*cfg, prs@).contains(m@[k]));
        }
    }
    if m.len() == 0 {
        return match parse_month(month) {
            Some((y, mo)) => Ok(MonthData::empty(month_start_from_parts(y, mo), reviewed_count)),
            None => Err(AggregateError::InvalidMonth),
        };
    }
    let ghost events = review_events(*cfg, prs@);
    let ranked_reviewers = rank(&tally, Ghost(events));
    let reviewers = reviewers_from(&ranked_reviewers, Ghost(events));
    let n = m.len();
    let earliest = m[0].created_at;
    let latest = m[n - 1].created_at;
    proof {
        assert(earliest <= latest);
    }
    let first = start_of_week(earliest);
    let weeks_needed: usize = ((latest - first) / SECONDS_PER_DAY / 7 + 1) as usize;
    proof {
        let x = (latest - first) as int;
        assert(x / 86400 / 7 * 604800 <= x) by (nonlinear_arith)
            requires
                x >= 0,
        ;
    }
    let (weeks, prs_by_week) = group_prs_by_week(&m, first, weeks_needed);
    let (repos, prs_by_repo) = build_repo_data(&m, &cfg.size);
    let (size_s, size_m, size_l, size_xl) = compute_size_counts(&m, &cfg.size);
    let days: i64 = (latest - earliest) / SECONDS_PER_DAY;
    let span: i64 = if days < 1 {
        1
    } else {
        days
    };
    let denominator: u128 = if span < 7 {
        7
    } else {
        span as u128
    };
    let result = MonthData {
            month_start: month_start(earliest),
            total_prs: n,
            avg_lead_time: avg_lead_time(&m),
            frequency: Ratio { numerator: 7 * (n as u128), denominator },
            size_s,
            size_m,
            size_l,
            size_xl,
            weeks,
            repos,
            prs_by_week,
            prs_by_repo,
            reviewers,
            reviewed_count,
        };
    proof {
        lemma_weeks_partition(result, m@, cfg.size);
        lemma_repos_partition(result, m@, cfg.size);
        lemma_first_week(result, m@, cfg.size);
        assert forall|k: int|
            0 <= k < m@.len() && #[trigger] m@[k].created_at == first_week_start(m@)
                + 604800 implies result.prs_by_week@.len() >= 2 && result.prs_by_week@[1]@.contains(
            m@[k],
        ) && !result.prs_by_week@[0]@.contains(m@[k]) by {
            lemma_week_boundary(result, m@, cfg.size, k);
        }
    }
    Ok(result)
}

pub open spec fn digit_char(d: nat) -> char {
    if d == 0 {
        '0'
    } else if d == 1 {
        '1'
    } else if d == 2 {
        '2'
    } else if d == 3 {
        '3'
    } else if d == 4 {
        '4'
    } else if d == 5 {
        '5'
    } else if d == 6 {
        '6'
    } else if d == 7 {
        '7'
    } else if d == 8 {
        '8'
    } else {
        '9'
    }
}

/// Decimal digits of `n`, without leading zeros.
pub open spec fn decimal(n: nat) -> Seq<char>
    decreases n,
{
    if n < 10 {
        seq![digit_char(n)]
    } else {
        decimal(n / 10).push(digit_char(n % 10))
    }
}

/// Relies on `ToString` for `u64`, which writes the decimal digits.
#[verifier::external_body]
pub(crate) fn decimal_text(n: u64) -> (r: String)
    ensures
        r@ == decimal(n as nat),
{
    n.to_string()
}

/// "{s}S {m}M {l}L {xl}XL".
pub open spec fn distribution_text(s: nat, m: nat, l: nat, xl: nat) -> Seq<char> {
    decimal(s) + "S "@ + decimal(m) + "M "@ + decimal(l) + "L "@ + decimal(xl) + "XL"@
}

fn size_distribution(s: usize, m: usize, l: usize, xl: usize) -> (r: String)
    ensures
        r@ == distribution_text(s as nat, m as nat, l as nat, xl as nat),
{
    let mut text = decimal_text(s as u64);
    text.append("S ");
    text.append(decimal_text(m as u64).as_str());
    text.append("M ");
    text.append(decimal_text(l as u64).as_str());
    text.append("L ");
    text.append(decimal_text(xl as u64).as_str());
    text.append("XL");
    text
}

impl RepoData {
    /// The size histogram as text, such as "2S 0M 1L 0XL".
    pub fn format_size_distribution(&self) -> (r: String)
        ensures
            r@ == distribution_text(
                self.size_s as nat,
                self.size_m as nat,
                self.size_l as nat,
                self.size_xl as nat,
            ),
    {
        size_distribution(self.size_s, self.size_m, self.size_l, self.size_xl)
    }
}

impl MonthData {
    /// The size histogram as text, such as "2S 0M 1L 0XL".
    pub fn format_size_distribution(&self) -> (r: String)
        ensures
            r@ == distribution_text(
                self.size_s as nat,
                self.size_m as nat,
                self.size_l as nat,
                self.size_xl as nat,
            ),
    {
        size_distribution(self.size_s, self.size_m, self.size_l, self.size_xl)
    }
}

/// A duration as text: "{days}d {hours}h" from one day on, "{hours}h
/// {minutes}m" from one hour on, else "{minutes}m".
pub open spec fn duration_text(seconds: nat) -> Seq<char> {
    let days = seconds / 86400;
    let hours = seconds / 3600 % 24;
    let minutes = seconds / 60 % 60;
    if days > 0 {
        decimal(days) + "d "@ + decimal(hours) + "h"@
    } else if hours > 0 {
        decimal(hours) + "h "@ + decimal(minutes) + "m"@
    } else {
        decimal(minutes) + "m"@
    }
}

/// A duration in seconds as days and hours, hours and minutes, or minutes.
pub fn format_duration(seconds: u64) -> (r: String)
    ensures
        r@ == duration_text(seconds as nat),
{
    let days = seconds / 86400;
    let hours = seconds / 3600 % 24;
    let minutes = seconds / 60 % 60;
    if days > 0 {
        let mut text = decimal_text(days);
        text.append("d ");
        text.append(decimal_text(hours).as_str());
        text.append("h");
        text
    } else if hours > 0 {
        let mut text = decimal_text(hours);
        text.append("h ");
        text.append(decimal_text(minutes).as_str());
        text.append("m");
        text
    } else {
        let mut text = decimal_text(minutes);
        text.append("m");
        text
    }
}

} // verus!
