//! Properties of month aggregates that hold for every input.

use vstd::prelude::*;

use crate::calendar::{supported_timestamp, weekday_of};
use crate::config::SizeConfig;
use crate::data::{
    created_ascending, first_week_start, in_window, lemma_window_len, of_repo, repo_names, repos_of,
    size_count, summary_of, week_total, window_end, window_start, MonthData, PRDetail, PRSize,
    RepoData, WeekData,
};
use crate::ranking::{lemma_rank_order, occurrences, ranks_before};

verus! {

/// Sum of the week counts.
pub open spec fn week_pr_total(w: Seq<WeekData>) -> int
    decreases w.len(),
{
    if w.len() == 0 {
        0
    } else {
        week_pr_total(w.drop_last()) + w.last().pr_count
    }
}

/// Sum of the repository counts.
pub open spec fn repo_pr_total(r: Seq<RepoData>) -> int
    decreases r.len(),
{
    if r.len() == 0 {
        0
    } else {
        repo_pr_total(r.drop_last()) + r.last().pr_count
    }
}

pub open spec fn size_field(r: RepoData, size: PRSize) -> int {
    match size {
        PRSize::S => r.size_s as int,
        PRSize::M => r.size_m as int,
        PRSize::L => r.size_l as int,
        PRSize::XL => r.size_xl as int,
    }
}

/// Sum of one category of the repository histograms.
pub open spec fn repo_size_total(r: Seq<RepoData>, size: PRSize) -> int
    decreases r.len(),
{
    if r.len() == 0 {
        0
    } else {
        repo_size_total(r.drop_last(), size) + size_field(r.last(), size)
    }
}

spec fn windows_total(m: Seq<PRDetail>, first: int, n: nat) -> int
    decreases n,
{
    if n == 0 {
        0
    } else {
        windows_total(m, first, (n - 1) as nat) + in_window(
            m,
            window_start(first, n - 1),
            window_end(first, n - 1),
        ).len()
    }
}

proof fn lemma_windows_push(m: Seq<PRDetail>, d: PRDetail, first: int, n: nat)
    ensures
        windows_total(m.push(d), first, n) == windows_total(m, first, n) + if first
            <= d.created_at < first + n * 604800 {
            1int
        } else {
            0int
        },
    decreases n,
{
    if n > 0 {
        lemma_windows_push(m, d, first, (n - 1) as nat);
        assert(m.push(d).drop_last() =~= m);
    }
}

proof fn lemma_windows_cover(m: Seq<PRDetail>, first: int, n: nat)
    requires
        forall|k: int| 0 <= k < m.len() ==> first <= #[trigger] m[k].created_at < first + n * 604800,
    ensures
        windows_total(m, first, n) == m.len(),
    decreases m.len(),
{
    if m.len() == 0 {
        lemma_windows_empty(m, first, n);
    } else {
        let rest = m.drop_last();
        assert forall|k: int| 0 <= k < rest.len() implies first <= #[trigger] rest[k].created_at
            < first + n * 604800 by {
            assert(rest[k] == m[k]);
        }
        lemma_windows_cover(rest, first, n);
        lemma_windows_push(rest, m.last(), first, n);
        assert(rest.push(m.last()) =~= m);
    }
}

proof fn lemma_windows_empty(m: Seq<PRDetail>, first: int, n: nat)
    requires
        m.len() == 0,
    ensures
        windows_total(m, first, n) == 0,
    decreases n,
{
    if n > 0 {
        lemma_windows_empty(m, first, (n - 1) as nat);
    }
}

proof fn lemma_weeks_sum(w: Seq<WeekData>, m: Seq<PRDetail>, first: int)
    requires
        forall|k: int|
            0 <= k < w.len() ==> #[trigger] w[k].pr_count == in_window(
                m,
                window_start(first, k),
                window_end(first, k),
            ).len(),
    ensures
        week_pr_total(w) == windows_total(m, first, w.len()),
    decreases w.len(),
{
    if w.len() > 0 {
        let rest = w.drop_last();
        assert forall|k: int| 0 <= k < rest.len() implies #[trigger] rest[k].pr_count
            == in_window(m, window_start(first, k), window_end(first, k)).len() by {
            assert(rest[k] == w[k]);
        }
        lemma_weeks_sum(rest, m, first);
        assert(w.last() == w[w.len() - 1]);
    }
}

/// Every entry of a month aggregate falls in exactly one week window: the
/// week counts add up to the total.
pub proof fn lemma_weeks_partition(r: MonthData, m: Seq<PRDetail>, c: SizeConfig)
    requires
        m.len() > 0,
        created_ascending(m),
        supported_timestamp(m[0].created_at as int),
        summary_of(r, m, c),
    ensures
        week_pr_total(r.weeks@) == r.total_prs,
{
    let first = first_week_start(m);
    let n = week_total(m);
    let x = m.last().created_at - first;
    assert(x >= 0);
    assert(x < (x / 86400 / 7 + 1) * 604800) by (nonlinear_arith)
        requires
            x >= 0,
    ;
    assert forall|k: int| 0 <= k < m.len() implies first <= #[trigger] m[k].created_at < first + n
        * 604800 by {
        assert(m[0].created_at <= m[k].created_at <= m[m.len() - 1].created_at);
    }
    lemma_windows_cover(m, first, n as nat);
    assert forall|k: int| 0 <= k < r.weeks@.len() implies #[trigger] r.weeks@[k].pr_count
        == in_window(m, window_start(first, k), window_end(first, k)).len() by {
        assert(r.prs_by_week@[k]@ == in_window(m, window_start(first, k), window_end(first, k)));
        lemma_window_len(m, window_start(first, k), window_end(first, k));
    }
    lemma_weeks_sum(r.weeks@, m, first);
}

spec fn names_size_total(m: Seq<PRDetail>, names: Seq<Seq<char>>, c: SizeConfig, size: PRSize) -> int
    decreases names.len(),
{
    if names.len() == 0 {
        0
    } else {
        names_size_total(m, names.drop_last(), c, size) + size_count(
            of_repo(m, names.last()),
            c,
            size,
        )
    }
}

proof fn lemma_names_size_push(
    m: Seq<PRDetail>,
    d: PRDetail,
    names: Seq<Seq<char>>,
    c: SizeConfig,
    size: PRSize,
)
    ensures
        names_size_total(m.push(d), names, c, size) == names_size_total(m, names, c, size) + if d.size_spec(c) == size {
            occurrences(names, d.repo@) as int
        } else {
            0int
        },
    decreases names.len(),
{
    assert(m.push(d).drop_last() =~= m);
    if names.len() > 0 {
        lemma_names_size_push(m, d, names.drop_last(), c, size);
        let x = names.last();
        let base = of_repo(m, x);
        assert(base.push(d).drop_last() =~= base);
        if d.repo@ == x {
            assert(of_repo(m.push(d), x) == base.push(d));
        } else {
            assert(of_repo(m.push(d), x) == base);
        }
    }
}

proof fn lemma_occurs_once(names: Seq<Seq<char>>, x: Seq<char>)
    requires
        names.contains(x),
        forall|i: int, j: int| 0 <= i < j < names.len() ==> names[i] != names[j],
    ensures
        occurrences(names, x) == 1,
    decreases names.len(),
{
    let rest = names.drop_last();
    if names.last() == x {
        assert(!rest.contains(x)) by {
            if rest.contains(x) {
                let i = choose|i: int| 0 <= i < rest.len() && rest[i] == x;
                assert(names[i] == names[names.len() - 1]);
            }
        }
        crate::ranking::lemma_occurrences_bound(rest, x);
    } else {
        let i = choose|i: int| 0 <= i < names.len() && names[i] == x;
        assert(rest[i] == x);
        lemma_occurs_once(rest, x);
    }
}

proof fn lemma_names_size_cover(m: Seq<PRDetail>, names: Seq<Seq<char>>, c: SizeConfig, size: PRSize)
    requires
        forall|i: int, j: int| 0 <= i < j < names.len() ==> names[i] != names[j],
        forall|k: int| 0 <= k < m.len() ==> names.contains(#[trigger] m[k].repo@),
    ensures
        names_size_total(m, names, c, size) == size_count(m, c, size),
    decreases m.len(),
{
    if m.len() == 0 {
        lemma_names_size_empty(m, names, c, size);
    } else {
        let rest = m.drop_last();
        assert forall|k: int| 0 <= k < rest.len() implies names.contains(#[trigger] rest[k].repo@) by {
            assert(rest[k] == m[k]);
        }
        lemma_names_size_cover(rest, names, c, size);
        lemma_names_size_push(rest, m.last(), names, c, size);
        assert(m.last() == m[m.len() - 1]);
        lemma_occurs_once(names, m.last().repo@);
        assert(rest.push(m.last()) =~= m);
    }
}

proof fn lemma_names_size_empty(m: Seq<PRDetail>, names: Seq<Seq<char>>, c: SizeConfig, size: PRSize)
    requires
        m.len() == 0,
    ensures
        names_size_total(m, names, c, size) == 0,
    decreases names.len(),
{
    if names.len() > 0 {
        lemma_names_size_empty(m, names.drop_last(), c, size);
    }
}

proof fn lemma_repo_sizes(repos: Seq<RepoData>, m: Seq<PRDetail>, c: SizeConfig, size: PRSize)
    requires
        forall|k: int|
            0 <= k < repos.len() ==> size_field(#[trigger] repos[k], size) == size_count(
                of_repo(m, repos[k].name@),
                c,
                size,
            ),
    ensures
        repo_size_total(repos, size) == names_size_total(
            m,
            repos.map_values(|r: RepoData| r.name@),
            c,
            size,
        ),
    decreases repos.len(),
{
    if repos.len() > 0 {
        let rest = repos.drop_last();
        assert forall|k: int| 0 <= k < rest.len() implies size_field(#[trigger] rest[k], size)
            == size_count(of_repo(m, rest[k].name@), c, size) by {
            assert(rest[k] == repos[k]);
        }
        lemma_repo_sizes(rest, m, c, size);
        assert(repos.map_values(|r: RepoData| r.name@).drop_last() =~= rest.map_values(
            |r: RepoData| r.name@,
        ));
        assert(repos.last() == repos[repos.len() - 1]);
    }
}

proof fn lemma_size_partition(s: Seq<PRDetail>, c: SizeConfig)
    ensures
        s.len() == size_count(s, c, PRSize::S) + size_count(s, c, PRSize::M) + size_count(
            s,
            c,
            PRSize::L,
        ) + size_count(s, c, PRSize::XL),
    decreases s.len(),
{
    if s.len() > 0 {
        lemma_size_partition(s.drop_last(), c);
    }
}

proof fn lemma_repo_counts(repos: Seq<RepoData>)
    requires
        forall|k: int|
            0 <= k < repos.len() ==> #[trigger] repos[k].pr_count == repos[k].size_s
                + repos[k].size_m + repos[k].size_l + repos[k].size_xl,
    ensures
        repo_pr_total(repos) == repo_size_total(repos, PRSize::S) + repo_size_total(
            repos,
            PRSize::M,
        ) + repo_size_total(repos, PRSize::L) + repo_size_total(repos, PRSize::XL),
    decreases repos.len(),
{
    if repos.len() > 0 {
        let rest = repos.drop_last();
        assert forall|k: int| 0 <= k < rest.len() implies #[trigger] rest[k].pr_count
            == rest[k].size_s + rest[k].size_m + rest[k].size_l + rest[k].size_xl by {
            assert(rest[k] == repos[k]);
        }
        lemma_repo_counts(rest);
        assert(repos.last() == repos[repos.len() - 1]);
    }
}

/// Every entry belongs to exactly one repository group: the repository
/// counts add up to the total, and the repository histograms add up to the
/// month histogram.
pub proof fn lemma_repos_partition(r: MonthData, m: Seq<PRDetail>, c: SizeConfig)
    requires
        m.len() > 0,
        summary_of(r, m, c),
    ensures
        repo_pr_total(r.repos@) == r.total_prs,
        repo_size_total(r.repos@, PRSize::S) == r.size_s,
        repo_size_total(r.repos@, PRSize::M) == r.size_m,
        repo_size_total(r.repos@, PRSize::L) == r.size_l,
        repo_size_total(r.repos@, PRSize::XL) == r.size_xl,
{
    let repos = r.repos@;
    let names = repos.map_values(|x: RepoData| x.name@);
    assert(repos_of(repos, r.prs_by_repo@, m, c));
    assert forall|i: int, j: int| 0 <= i < j < names.len() implies names[i] != names[j] by {
        assert(r.prs_by_repo@[i]@ == of_repo(m, repos[i].name@));
        assert(r.prs_by_repo@[j]@ == of_repo(m, repos[j].name@));
        assert(ranks_before(
            repos[i].pr_count as int,
            repos[i].name@,
            repos[j].pr_count as int,
            repos[j].name@,
        ));
        lemma_rank_order(
            repos[i].pr_count as int,
            repos[i].name@,
            repos[j].pr_count as int,
            repos[j].name@,
            0,
            Seq::empty(),
        );
    }
    assert forall|k: int| 0 <= k < m.len() implies names.contains(#[trigger] m[k].repo@) by {
        assert(repo_names(m)[k] == m[k].repo@);
        assert(repo_names(m).contains(m[k].repo@));
        let j = choose|j: int| 0 <= j < repos.len() && repos[j].name@ == m[k].repo@;
        assert(names[j] == m[k].repo@);
    }
    assert forall|k: int| 0 <= k < repos.len() implies #[trigger] repos[k].pr_count
        == repos[k].size_s + repos[k].size_m + repos[k].size_l + repos[k].size_xl by {
        assert(r.prs_by_repo@[k]@ == of_repo(m, repos[k].name@));
        lemma_size_partition(r.prs_by_repo@[k]@, c);
    }
    assert forall|sz: PRSize| true implies repo_size_total(repos, sz) == size_count(m, c, sz) by {
        assert forall|k: int| 0 <= k < repos.len() implies size_field(#[trigger] repos[k], sz)
            == size_count(of_repo(m, repos[k].name@), c, sz) by {
            assert(r.prs_by_repo@[k]@ == of_repo(m, repos[k].name@));
        }
        lemma_repo_sizes(repos, m, c, sz);
        lemma_names_size_cover(m, names, c, sz);
    }
    assert(repo_size_total(repos, PRSize::S) == size_count(m, c, PRSize::S));
    assert(repo_size_total(repos, PRSize::M) == size_count(m, c, PRSize::M));
    assert(repo_size_total(repos, PRSize::L) == size_count(m, c, PRSize::L));
    assert(repo_size_total(repos, PRSize::XL) == size_count(m, c, PRSize::XL));
    lemma_repo_counts(repos);
    lemma_size_partition(m, c);
}

/// The first week of `r` starts on a Monday at 00:00:00 UTC, no later than
/// every entry of `m` and less than seven days before the earliest; an entry
/// created exactly seven days after that start lies in the second week, not
/// in the first.
pub open spec fn first_week_law(r: MonthData, m: Seq<PRDetail>) -> bool {
    &&& r.weeks@.len() > 0
    &&& r.weeks@[0].week_start % 86400 == 0
    &&& weekday_of(r.weeks@[0].week_start as int) == 0
    &&& forall|k: int| 0 <= k < m.len() ==> r.weeks@[0].week_start <= #[trigger] m[k].created_at
    &&& m[0].created_at - r.weeks@[0].week_start < 604800
    &&& forall|k: int|
        0 <= k < m.len() && #[trigger] m[k].created_at == r.weeks@[0].week_start + 604800
            ==> r.prs_by_week@.len() >= 2 && r.prs_by_week@[1]@.contains(m[k])
            && !r.prs_by_week@[0]@.contains(m[k])
}

/// The first week starts on a Monday at 00:00:00 UTC, no later than the
/// earliest entry and less than seven days before it.
pub proof fn lemma_first_week(r: MonthData, m: Seq<PRDetail>, c: SizeConfig)
    requires
        m.len() > 0,
        created_ascending(m),
        supported_timestamp(m[0].created_at as int),
        summary_of(r, m, c),
    ensures
        r.weeks@[0].week_start % 86400 == 0,
        weekday_of(r.weeks@[0].week_start as int) == 0,
        forall|k: int| 0 <= k < m.len() ==> r.weeks@[0].week_start <= #[trigger] m[k].created_at,
        m[0].created_at - r.weeks@[0].week_start < 604800,
{
    let t = m[0].created_at as int;
    let first = first_week_start(m);
    assert(r.prs_by_week@[0]@ == in_window(m, window_start(first, 0), window_end(first, 0)));
    assert(r.weeks@[0].week_start == first);
    let d = t / 86400;
    let wd = (d + 3) % 7;
    assert(first == (d - wd) * 86400);
    assert((d - wd) * 86400 / 86400 == d - wd) by (nonlinear_arith);
    assert((d - wd) * 86400 % 86400 == 0) by (nonlinear_arith);
    assert((d - wd + 3) % 7 == 0) by (nonlinear_arith)
        requires
            wd == (d + 3) % 7,
    ;
    assert(d * 86400 <= t < d * 86400 + 86400) by (nonlinear_arith)
        requires
            d == t / 86400,
    ;
    assert forall|k: int| 0 <= k < m.len() implies first <= #[trigger] m[k].created_at by {
        assert(m[0].created_at <= m[k].created_at);
    }
}

proof fn lemma_in_window_contains(s: Seq<PRDetail>, lo: int, hi: int, x: PRDetail)
    ensures
        in_window(s, lo, hi).contains(x) <==> s.contains(x) && lo <= x.created_at <= hi,
    decreases s.len(),
{
    if s.len() > 0 {
        let rest = s.drop_last();
        lemma_in_window_contains(rest, lo, hi, x);
        assert(s =~= rest.push(s.last()));
        if rest.contains(x) {
            let i = choose|i: int| 0 <= i < rest.len() && rest[i] == x;
            assert(s[i] == x);
        }
        if s.contains(x) && x != s.last() {
            let i = choose|i: int| 0 <= i < s.len() && s[i] == x;
            assert(rest[i] == x);
        }
        let w = in_window(rest, lo, hi);
        if lo <= s.last().created_at <= hi {
            assert(in_window(s, lo, hi) == w.push(s.last()));
            if w.push(s.last()).contains(x) && x != s.last() {
                let i = choose|i: int| 0 <= i < w.push(s.last()).len() && w.push(s.last())[i] == x;
                assert(w[i] == x);
            }
            if w.contains(x) {
                let i = choose|i: int| 0 <= i < w.len() && w[i] == x;
                assert(w.push(s.last())[i] == x);
            }
            assert(w.push(s.last())[w.len() as int] == s.last());
        }
    }
}

/// An entry created exactly seven days after the start of the first week
/// lies in the second week, not in the first.
pub proof fn lemma_week_boundary(r: MonthData, m: Seq<PRDetail>, c: SizeConfig, k: int)
    requires
        m.len() > 0,
        created_ascending(m),
        summary_of(r, m, c),
        0 <= k < m.len(),
        m[k].created_at == first_week_start(m) + 604800,
    ensures
        r.prs_by_week@.len() >= 2,
        r.prs_by_week@[1]@.contains(m[k]),
        !r.prs_by_week@[0]@.contains(m[k]),
{
    let first = first_week_start(m);
    let x = m.last().created_at - first;
    assert(m[k].created_at <= m[m.len() - 1].created_at);
    assert(x >= 604800);
    assert(x / 86400 / 7 >= 1) by (nonlinear_arith)
        requires
            x >= 604800,
    ;
    assert(r.prs_by_week@[0]@ == in_window(m, window_start(first, 0), window_end(first, 0)));
    assert(r.prs_by_week@[1]@ == in_window(m, window_start(first, 1), window_end(first, 1)));
    assert(m.contains(m[k]));
    lemma_in_window_contains(m, window_start(first, 0), window_end(first, 0), m[k]);
    lemma_in_window_contains(m, window_start(first, 1), window_end(first, 1), m[k]);
}

} // verus!
