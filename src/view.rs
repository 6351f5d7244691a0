//! State of the interactive month browser: which view is shown, how far it
//! is scrolled, and how a key message changes both.

use vstd::prelude::*;
use vstd::string::StringExecFns;

use crate::data::{MonthData, PRDetail};

verus! {

/// What the detail view groups pull requests by.
#[derive(Clone, Copy, Debug, PartialEq, Eq, Structural)]
pub enum DetailMode {
    ByWeek,
    ByRepo,
}

impl DetailMode {
    /// The other grouping.
    pub fn cycle(self) -> (r: Self)
        ensures
            r == match self {
                DetailMode::ByWeek => DetailMode::ByRepo,
                DetailMode::ByRepo => DetailMode::ByWeek,
            },
    {
        match self {
            DetailMode::ByWeek => DetailMode::ByRepo,
            DetailMode::ByRepo => DetailMode::ByWeek,
        }
    }
}

/// The screen shown.
#[derive(Clone, Copy, Debug, PartialEq, Eq, Structural)]
pub enum Screen {
    Summary,
    Detail(DetailMode),
    Tail,
}

/// Vertical scroll of a view: the first line shown, the number of lines
/// of content, and the number of lines that fit.
#[derive(Clone, Copy, Debug, PartialEq, Eq, Structural)]
pub struct ScrollState {
    pub position: usize,
    pub content_height: usize,
    pub viewport_height: usize,
}

pub open spec fn saturating_less(a: usize, b: usize) -> usize {
    if a >= b {
        (a - b) as usize
    } else {
        0
    }
}

impl ScrollState {
    /// The furthest position: the lines that do not fit.
    pub open spec fn max_position(&self) -> usize {
        saturating_less(self.content_height, self.viewport_height)
    }

    pub fn new() -> (r: Self)
        ensures
            r.position == 0 && r.content_height == 0 && r.viewport_height == 0,
    {
        ScrollState { position: 0, content_height: 0, viewport_height: 0 }
    }

    /// Back to the top.
    pub fn reset(&mut self)
        ensures
            *final(self) == (ScrollState { position: 0, ..*old(self) }),
    {
        self.position = 0;
    }

    /// One line up, staying at the top.
    pub fn scroll_up(&mut self)
        ensures
            *final(self) == (ScrollState { position: saturating_less(old(self).position, 1), ..*old(self) }),
    {
        self.position = self.position.saturating_sub(1);
    }

    /// One line down, unless the last line is already shown.
    pub fn scroll_down(&mut self)
        ensures
            *final(self) == (ScrollState {
                position: if old(self).position < old(self).max_position() {
                    (old(self).position + 1) as usize
                } else {
                    old(self).position
                },
                ..*old(self)
            }),
    {
        let max = self.max_scroll();
        if self.position < max {
            self.position = self.position + 1;
        }
    }

    pub fn max_scroll(&self) -> (r: usize)
        ensures
            r == self.max_position(),
    {
        self.content_height.saturating_sub(self.viewport_height)
    }

    pub fn set_content_height(&mut self, height: usize)
        ensures
            *final(self) == (ScrollState { content_height: height, ..*old(self) }),
    {
        self.content_height = height;
    }

    pub fn set_viewport_height(&mut self, height: usize)
        ensures
            *final(self) == (ScrollState { viewport_height: height, ..*old(self) }),
    {
        self.viewport_height = height;
    }
}

/// A user action.
#[derive(Clone, Copy, Debug, PartialEq, Eq, Structural)]
pub enum Msg {
    Quit,
    ShowSummary,
    ToggleDetail,
    ShowTail,
    ScrollUp,
    ScrollDown,
}

/// Everything the browser changes while it runs.
#[derive(Clone, Copy, Debug, PartialEq, Eq, Structural)]
pub struct AppState {
    pub current_view: Screen,
    pub scroll: ScrollState,
}

impl AppState {
    /// The summary, at the top.
    pub fn new() -> (r: Self)
        ensures
            r.current_view == Screen::Summary,
            r.scroll.position == 0 && r.scroll.content_height == 0 && r.scroll.viewport_height
                == 0,
    {
        AppState { current_view: Screen::Summary, scroll: ScrollState::new() }
    }

    pub fn current_view(&self) -> (r: Screen)
        ensures
            r == self.current_view,
    {
        self.current_view
    }

    pub fn scroll_mut(&mut self) -> (r: &mut ScrollState)
        ensures
            *r == old(self).scroll,
            *final(self) == (AppState { scroll: *final(r), ..*old(self) }),
    {
        &mut self.scroll
    }

    /// Shows `view` from its top.
    pub fn set_view(&mut self, view: Screen)
        ensures
            final(self).current_view == view,
            final(self).scroll == (ScrollState { position: 0, ..old(self).scroll }),
    {
        self.current_view = view;
        self.scroll.reset();
    }

    pub fn scroll_up(&mut self)
        ensures
            final(self).current_view == old(self).current_view,
            final(self).scroll == (ScrollState {
                position: saturating_less(old(self).scroll.position, 1),
                ..old(self).scroll
            }),
    {
        self.scroll.scroll_up();
    }

    pub fn scroll_down(&mut self)
        ensures
            final(self).current_view == old(self).current_view,
            final(self).scroll == (ScrollState {
                position: if old(self).scroll.position < old(self).scroll.max_position() {
                    (old(self).scroll.position + 1) as usize
                } else {
                    old(self).scroll.position
                },
                ..old(self).scroll
            }),
    {
        self.scroll.scroll_down();
    }
}

/// The view that `msg` shows after `v`; `None` when it keeps the view and
/// the scroll position.
pub open spec fn target_view(msg: Msg, v: Screen) -> Option<Screen> {
    match msg {
        Msg::ShowSummary => Some(Screen::Summary),
        Msg::ToggleDetail => Some(
            match v {
                Screen::Detail(DetailMode::ByWeek) => Screen::Detail(DetailMode::ByRepo),
                Screen::Detail(DetailMode::ByRepo) => Screen::Detail(DetailMode::ByWeek),
                _ => Screen::Detail(DetailMode::ByWeek),
            },
        ),
        Msg::ShowTail => Some(Screen::Tail),
        _ => None,
    }
}

/// The state after `msg`. A message that changes the view shows the new
/// view from its top; scrolling keeps the view; `Quit` changes nothing, the
/// caller stops instead.
pub fn update(msg: Msg, state: AppState) -> (r: AppState)
    ensures
        target_view(msg, state.current_view) matches Some(v) ==> r.current_view == v && r.scroll
            == (ScrollState { position: 0, ..state.scroll }),
        msg == Msg::ScrollUp ==> r == (AppState {
            scroll: ScrollState { position: saturating_less(state.scroll.position, 1), ..state.scroll },
            ..state
        }),
        msg == Msg::ScrollDown ==> r == (AppState {
            scroll: ScrollState {
                position: if state.scroll.position < state.scroll.max_position() {
                    (state.scroll.position + 1) as usize
                } else {
                    state.scroll.position
                },
                ..state.scroll
            },
            ..state
        }),
        msg == Msg::Quit ==> r == state,
{
    let mut state = state;
    match msg {
        Msg::Quit => state,
        Msg::ShowSummary => {
            state.set_view(Screen::Summary);
            state
        },
        Msg::ToggleDetail => {
            let new_view = match state.current_view() {
                Screen::Detail(mode) => Screen::Detail(mode.cycle()),
                _ => Screen::Detail(DetailMode::ByWeek),
            };
            state.set_view(new_view);
            state
        },
        Msg::ShowTail => {
            state.set_view(Screen::Tail);
            state
        },
        Msg::ScrollUp => {
            state.scroll_up();
            state
        },
        Msg::ScrollDown => {
            state.scroll_down();
            state
        },
    }
}

/// A key press, as far as the browser tells keys apart.
#[derive(Clone, Copy, Debug, PartialEq, Eq, Structural)]
pub enum Key {
    Char(char),
    Esc,
    Up,
    Down,
    Other,
}

/// The message of a key: q or Esc quits, s, d and t choose a view, the
/// arrows or k and j scroll; other keys do nothing.
pub fn msg_for_key(key: Key) -> (r: Option<Msg>)
    ensures
        r == match key {
            Key::Char('q') | Key::Esc => Some(Msg::Quit),
            Key::Char('s') => Some(Msg::ShowSummary),
            Key::Char('d') => Some(Msg::ToggleDetail),
            Key::Char('t') => Some(Msg::ShowTail),
            Key::Up | Key::Char('k') => Some(Msg::ScrollUp),
            Key::Down | Key::Char('j') => Some(Msg::ScrollDown),
            _ => None,
        },
{
    match key {
        Key::Char('q') | Key::Esc => Some(Msg::Quit),
        Key::Char('s') => Some(Msg::ShowSummary),
        Key::Char('d') => Some(Msg::ToggleDetail),
        Key::Char('t') => Some(Msg::ShowTail),
        Key::Up | Key::Char('k') => Some(Msg::ScrollUp),
        Key::Down | Key::Char('j') => Some(Msg::ScrollDown),
        _ => None,
    }
}

/// Columns left to the side margins (2 each).
pub const HORIZONTAL_MARGIN: usize = 2;

/// Columns taken by the scrollbar.
pub const SCROLLBAR_SPACE: usize = 1;

/// Columns of a pull-request line that are not repository or title.
pub const FIXED_COLUMNS: usize = 36;

/// Widths for a content area `width` columns wide: the usable width, the
/// repository column (a third of what the fixed columns leave, at least
/// 30 columns in all, at least 10), and the title column (the rest, at least
/// 15).
pub open spec fn column_widths(width: usize) -> (usize, usize, usize) {
    let usable = saturating_less(saturating_less(width, 4), 1);
    let left = saturating_less(usable, FIXED_COLUMNS);
    let remaining = if left < 30 {
        30usize
    } else {
        left
    };
    let repo = if remaining / 3 < 10 {
        10usize
    } else {
        (remaining / 3) as usize
    };
    let rest = saturating_less(remaining, repo);
    let title = if rest < 15 {
        15usize
    } else {
        rest
    };
    (usable, repo, title)
}

pub fn content_widths(width: usize) -> (r: (usize, usize, usize))
    ensures
        r == column_widths(width),
{
    let usable = width.saturating_sub(HORIZONTAL_MARGIN * 2).saturating_sub(SCROLLBAR_SPACE);
    let left = usable.saturating_sub(FIXED_COLUMNS);
    let remaining = if left < 30 {
        30
    } else {
        left
    };
    let repo = if remaining / 3 < 10 {
        10
    } else {
        remaining / 3
    };
    let rest = remaining.saturating_sub(repo);
    let title = if rest < 15 {
        15
    } else {
        rest
    };
    (usable, repo, title)
}

/// Relies on `String::push`, which appends one character.
#[verifier::external_body]
fn push_char(s: &mut String, c: char)
    ensures
        final(s)@ == old(s)@.push(c),
{
    s.push(c);
}

/// `n` copies of `c`.
pub open spec fn repeated(c: char, n: nat) -> Seq<char> {
    Seq::new(n, |i: int| c)
}

fn append_repeated(s: &mut String, c: char, n: usize)
    ensures
        final(s)@ == old(s)@ + repeated(c, n as nat),
{
    let mut i: usize = 0;
    while i < n
        invariant
            i <= n,
            s@ == old(s)@ + repeated(c, i as nat),
        decreases n - i,
    {
        push_char(s, c);
        assert(old(s)@ + repeated(c, (i + 1) as nat) =~= (old(s)@ + repeated(c, i as nat)).push(c));
        i = i + 1;
    }
}

/// `text`, filled up with `pad_char` to `width` characters.
pub fn pad_line(text: &str, width: usize, pad_char: char) -> (r: String)
    ensures
        text@.len() >= width ==> r@ == text@,
        text@.len() < width ==> r@ == text@ + repeated(pad_char, (width - text@.len()) as nat),
{
    let mut line = text.to_owned();
    let n = char_count(text);
    if n < width {
        append_repeated(&mut line, pad_char, width - n);
    }
    line
}

/// Relies on `str::chars` and `Iterator::count`: the number of characters.
#[verifier::external_body]
fn char_count(text: &str) -> (r: usize)
    ensures
        r == text@.len(),
{
    text.chars().count()
}

/// "━━━ {title} " filled up with "━" to `width` characters.
pub fn separator_line(title: &str, width: usize) -> (r: String)
    ensures
        r@ == pad_text("━━━ "@ + title@ + " "@, width),
{
    let mut prefix = "━━━ ".to_owned();
    prefix.append(title);
    prefix.append(" ");
    pad_line(prefix.as_str(), width, '━')
}

/// `text` filled up with "━" to `width` characters.
pub open spec fn pad_text(text: Seq<char>, width: usize) -> Seq<char> {
    if text.len() >= width {
        text
    } else {
        text + repeated('━', (width - text.len()) as nat)
    }
}

/// Every entry of the weeks, longest lead time first; entries with equal
/// lead times keep their order.
pub open spec fn by_lead_time(s: Seq<PRDetail>) -> Seq<PRDetail>
    decreases s.len(),
{
    if s.len() == 0 {
        s
    } else {
        insert_by_lead(by_lead_time(s.drop_last()), s.last())
    }
}

/// `s` with `x` placed after every entry whose lead time is at least `x`'s.
pub open spec fn insert_by_lead(s: Seq<PRDetail>, x: PRDetail) -> Seq<PRDetail>
    decreases s.len(),
{
    if s.len() == 0 {
        seq![x]
    } else if s.last().lead_time >= x.lead_time {
        s.push(x)
    } else {
        insert_by_lead(s.drop_last(), x).push(s.last())
    }
}

/// The entries of all weeks, week after week.
pub open spec fn week_entries(weeks: Seq<Vec<PRDetail>>) -> Seq<PRDetail>
    decreases weeks.len(),
{
    if weeks.len() == 0 {
        Seq::empty()
    } else {
        week_entries(weeks.drop_last()) + weeks.last()@
    }
}

proof fn lemma_insert_lead_at(s: Seq<PRDetail>, x: PRDetail, j: int)
    requires
        0 <= j <= s.len(),
        j == 0 || s[j - 1].lead_time >= x.lead_time,
        forall|k: int| j <= k < s.len() ==> s[k].lead_time < x.lead_time,
    ensures
        insert_by_lead(s, x) == s.insert(j, x),
    decreases s.len(),
{
    if s.len() == 0 {
        assert(s.insert(j, x) =~= seq![x]);
    } else if j == s.len() {
        assert(s.insert(j, x) =~= s.push(x));
    } else {
        lemma_insert_lead_at(s.drop_last(), x, j);
        assert(s.insert(j, x) =~= s.drop_last().insert(j, x).push(s.last()));
    }
}

/// The pull requests of the month, longest lead time first, for the tail
/// view.
pub fn tail_order(data: &MonthData) -> (r: Vec<PRDetail>)
    ensures
        r@ == by_lead_time(week_entries(data.prs_by_week@)),
{
    let mut sorted: Vec<PRDetail> = Vec::new();
    let ghost all = week_entries(data.prs_by_week@);
    let mut w: usize = 0;
    while w < data.prs_by_week.len()
        invariant
            w <= data.prs_by_week@.len(),
            sorted@ == by_lead_time(week_entries(data.prs_by_week@.subrange(0, w as int))),
        decreases data.prs_by_week@.len() - w,
    {
        let week = &data.prs_by_week[w];
        let ghost done = week_entries(data.prs_by_week@.subrange(0, w as int));
        assert(data.prs_by_week@.subrange(0, w + 1).drop_last() =~= data.prs_by_week@.subrange(
            0,
            w as int,
        ));
        let mut i: usize = 0;
        while i < week.len()
            invariant
                i <= week@.len(),
                sorted@ == by_lead_time(done + week@.subrange(0, i as int)),
            decreases week@.len() - i,
        {
            let x = week[i].duplicate();
            assert((done + week@.subrange(0, i + 1)).drop_last() =~= done + week@.subrange(
                0,
                i as int,
            ));
            let mut j: usize = sorted.len();
            while j > 0 && sorted[j - 1].lead_time < x.lead_time
                invariant
                    j <= sorted@.len(),
                    forall|k: int| j <= k < sorted@.len() ==> sorted@[k].lead_time < x.lead_time,
                decreases j,
            {
                j = j - 1;
            }
            proof {
                lemma_insert_lead_at(sorted@, x, j as int);
            }
            sorted.insert(j, x);
            i = i + 1;
        }
        assert(week@.subrange(0, i as int) =~= week@);
        w = w + 1;
    }
    assert(data.prs_by_week@.subrange(0, w as int) =~= data.prs_by_week@);
    sorted
}

} // verus!
