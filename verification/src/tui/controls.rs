//! What the dashboard's keys, mouse and sliders do, and the layout numbers
//! they depend on.
use crate::pipeline::{
    is_power_of_two, valid_active_workers, valid_chunk_size, valid_level, valid_throttle,
    ControllerSnapshot, PipelineController, MAX_CHUNK_SIZE, MAX_THROTTLE_DELAY_MS, MIN_CHUNK_SIZE,
};
use crate::tui::{FocusedWidget, TuiMode, TuiState, TuiView};
use vstd::prelude::*;

verus! {

/// The focus cycle of the stream dashboard: level, throttle, chunk size,
/// workers, then nothing.
pub open spec fn next_focus_spec(current: FocusedWidget) -> FocusedWidget {
    match current {
        FocusedWidget::Unfocused => FocusedWidget::CompressionLevelSlider,
        FocusedWidget::CompressionLevelSlider => FocusedWidget::ThrottleDelaySlider,
        FocusedWidget::ThrottleDelaySlider => FocusedWidget::ChunkSizeSlider,
        FocusedWidget::ChunkSizeSlider => FocusedWidget::WorkerCountSlider,
        FocusedWidget::WorkerCountSlider => FocusedWidget::Unfocused,
    }
}

/// The focus cycle of a dashboard: in split mode only the throttle and the
/// chunk size are live, anything else goes to the throttle.
pub open spec fn next_focus_for_mode_spec(mode: TuiMode, current: FocusedWidget) -> FocusedWidget {
    if mode == TuiMode::Split {
        match current {
            FocusedWidget::ThrottleDelaySlider => FocusedWidget::ChunkSizeSlider,
            FocusedWidget::ChunkSizeSlider => FocusedWidget::Unfocused,
            _ => FocusedWidget::ThrottleDelaySlider,
        }
    } else {
        next_focus_spec(current)
    }
}

pub fn next_focus(current: FocusedWidget) -> (r: FocusedWidget)
    ensures
        r == next_focus_spec(current),
{
    match current {
        FocusedWidget::Unfocused => FocusedWidget::CompressionLevelSlider,
        FocusedWidget::CompressionLevelSlider => FocusedWidget::ThrottleDelaySlider,
        FocusedWidget::ThrottleDelaySlider => FocusedWidget::ChunkSizeSlider,
        FocusedWidget::ChunkSizeSlider => FocusedWidget::WorkerCountSlider,
        FocusedWidget::WorkerCountSlider => FocusedWidget::Unfocused,
    }
}

pub fn next_focus_for_mode(mode: TuiMode, current: FocusedWidget) -> (r: FocusedWidget)
    ensures
        r == next_focus_for_mode_spec(mode, current),
{
    if mode == TuiMode::Split {
        match current {
            FocusedWidget::ThrottleDelaySlider => FocusedWidget::ChunkSizeSlider,
            FocusedWidget::ChunkSizeSlider => FocusedWidget::Unfocused,
            _ => FocusedWidget::ThrottleDelaySlider,
        }
    } else {
        next_focus(current)
    }
}

/// Pressing Tab five times in the stream dashboard comes back to where it
/// started, after visiting every control.
pub proof fn lemma_focus_cycle(start: FocusedWidget)
    ensures
        next_focus_spec(next_focus_spec(next_focus_spec(next_focus_spec(next_focus_spec(start)))))
            == start,
{
}

/// Pressing Tab three times in the split dashboard from any control lands on
/// the throttle, the chunk size or nothing, and comes back to that control.
pub proof fn lemma_split_focus_cycle(start: FocusedWidget)
    ensures
        ({
            let first = next_focus_for_mode_spec(TuiMode::Split, start);
            &&& first != FocusedWidget::CompressionLevelSlider
            &&& first != FocusedWidget::WorkerCountSlider
            &&& next_focus_for_mode_spec(
                TuiMode::Split,
                next_focus_for_mode_spec(
                    TuiMode::Split,
                    next_focus_for_mode_spec(TuiMode::Split, first),
                ),
            ) == first
        }),
{
}

/// `num / den` rounded to the nearest integer, halves up.
pub open spec fn round_ratio(num: nat, den: nat) -> nat
    recommends
        den > 0,
{
    (num as int / den as int + if 2 * (num as int % den as int) >= den { 1int } else { 0int }) as nat
}

/// Where on a slider of `height` rows `row` is, as the numerator over the
/// denominator of the fraction from the top (the last row is the bottom;
/// rows below it count as the bottom).
pub open spec fn slider_position(row: nat, height: nat) -> (nat, nat) {
    if height <= 1 {
        (0, 1)
    } else {
        (if row < height - 1 { row } else { (height - 1) as nat }, (height - 1) as nat)
    }
}

/// The chunk size a slider row selects: 8 MiB at the top, halving over seven
/// steps to 64 KiB at the bottom.
pub open spec fn chunk_size_for_row(row: nat, height: nat) -> nat {
    let (num, den) = slider_position(row, height);
    let step = round_ratio(7 * num, den);
    halved(MAX_CHUNK_SIZE as nat, step)
}

/// `n` halved `times` times (rounding down).
pub open spec fn halved(n: nat, times: nat) -> nat
    decreases times,
{
    if times == 0 {
        n
    } else {
        halved(n / 2, (times - 1) as nat)
    }
}

/// The worker count a slider row selects: the whole pool at the top, one at
/// the bottom.
pub open spec fn workers_for_row(row: nat, height: nat, max_workers: nat) -> nat {
    let pool: nat = if max_workers == 0 { 1 } else { max_workers };
    let (num, den) = slider_position(row, height);
    let fewer = round_ratio((pool - 1) as nat * num, den);
    if pool > fewer && pool - fewer >= 1 { (pool - fewer) as nat } else { 1 }
}

/// The level a slider row selects: 9 at the top, 1 at the bottom.
pub open spec fn level_for_row(row: nat, height: nat) -> nat {
    let (num, den) = slider_position(row, height);
    round_ratio((9 * den - 8 * num) as nat, den)
}

/// The throttle a slider row selects: 500 ms at the top, none at the bottom.
pub open spec fn throttle_for_row(row: nat, height: nat) -> nat {
    let (num, den) = slider_position(row, height);
    round_ratio((500 * (den - num)) as nat, den)
}

/// Every slider row selects a setting the controls accept: a chunk size
/// that is a power of two within the bounds, a worker count within the pool,
/// a level from 1 to 9 and a throttle of at most 500 ms.
pub proof fn lemma_slider_rows_select_valid_settings(row: nat, height: nat, max_workers: nat)
    requires
        max_workers >= 1,
    ensures
        valid_chunk_size(chunk_size_for_row(row, height) as int),
        valid_active_workers(workers_for_row(row, height, max_workers) as int, max_workers as int),
        valid_level(level_for_row(row, height) as int),
        valid_throttle(throttle_for_row(row, height) as int),
{
    let (num, den) = slider_position(row, height);
    assert(num <= den && den >= 1);
    let step = round_ratio(7 * num, den);
    assert(step <= 7) by (nonlinear_arith)
        requires
            step == round_ratio(7 * num, den),
            num <= den,
            den >= 1,
    ;
    reveal_with_fuel(halved, 8);
    reveal_with_fuel(is_power_of_two, 24);
    assert(valid_chunk_size(halved(MAX_CHUNK_SIZE as nat, step) as int)) by {
        if step == 0 {
            assert(halved(8388608, 0) == 8388608);
        } else if step == 1 {
            assert(halved(8388608, 1) == 4194304);
        } else if step == 2 {
            assert(halved(8388608, 2) == 2097152);
        } else if step == 3 {
            assert(halved(8388608, 3) == 1048576);
        } else if step == 4 {
            assert(halved(8388608, 4) == 524288);
        } else if step == 5 {
            assert(halved(8388608, 5) == 262144);
        } else if step == 6 {
            assert(halved(8388608, 6) == 131072);
        } else {
            assert(halved(8388608, 7) == 65536);
        }
    }
    let level = level_for_row(row, height);
    assert(1 <= level <= 9) by (nonlinear_arith)
        requires
            level == round_ratio((9 * den - 8 * num) as nat, den),
            num <= den,
            den >= 1,
    ;
    let delay = throttle_for_row(row, height);
    assert(delay <= 500) by (nonlinear_arith)
        requires
            delay == round_ratio((500 * (den - num)) as nat, den),
            num <= den,
            den >= 1,
    ;
}

fn slider_position_exec(row: usize, height: usize) -> (r: (u128, u128))
    ensures
        (r.0 as nat, r.1 as nat) == slider_position(row as nat, height as nat),
        r.1 >= 1,
        r.0 <= r.1,
        r.1 <= usize::MAX,
{
    if height <= 1 {
        (0, 1)
    } else {
        let den = height - 1;
        let num = if row < den { row } else { den };
        (num as u128, den as u128)
    }
}

fn round_ratio_exec(num: u128, den: u128) -> (r: u128)
    requires
        den >= 1,
        den <= usize::MAX,
    ensures
        r == round_ratio(num as nat, den as nat),
{
    let q = num / den;
    let rem = num % den;
    assert(rem < den);
    if 2 * rem >= den {
        assert(q < u128::MAX) by (nonlinear_arith)
            requires
                q == num / den,
                rem == num % den,
                2 * rem >= den,
                rem < den,
                den >= 1,
                den <= usize::MAX,
        ;
        q + 1
    } else {
        q
    }
}

/// The chunk size a click on `row` of the chunk slider selects.
pub fn chunk_size_from_slider_row(row: usize, height: usize) -> (r: usize)
    ensures
        r == chunk_size_for_row(row as nat, height as nat),
{
    let (num, den) = slider_position_exec(row, height);
    let step = round_ratio_exec(7 * num, den);
    assert(step <= 7) by (nonlinear_arith)
        requires
            step == round_ratio((7 * num) as nat, den as nat),
            num <= den,
            den >= 1,
    ;
    let steps = step as usize;
    let mut size = MAX_CHUNK_SIZE;
    let mut done: usize = 0;
    while done < steps
        invariant
            done <= steps,
            halved(size as nat, (steps - done) as nat) == halved(MAX_CHUNK_SIZE as nat, steps as nat),
        decreases steps - done,
    {
        size = size / 2;
        done = done + 1;
    }
    size
}

/// The number of workers a click on `row` of the worker slider selects.
pub fn workers_from_slider_row(row: usize, height: usize, max_workers: usize) -> (r: usize)
    ensures
        r == workers_for_row(row as nat, height as nat, max_workers as nat),
{
    let pool: usize = if max_workers == 0 { 1 } else { max_workers };
    let (num, den) = slider_position_exec(row, height);
    let span = (pool - 1) as u128;
    assert(span * num <= u128::MAX) by (nonlinear_arith)
        requires
            span <= usize::MAX,
            num <= den,
            den <= usize::MAX,
    ;
    let fewer = round_ratio_exec(span * num, den);
    if (pool as u128) > fewer && (pool as u128) - fewer >= 1 {
        (pool as u128 - fewer) as usize
    } else {
        1
    }
}

/// The level a click on `row` of the level slider selects.
pub fn level_from_slider_row(row: usize, height: usize) -> (r: u32)
    ensures
        r == level_for_row(row as nat, height as nat),
{
    let (num, den) = slider_position_exec(row, height);
    let level = round_ratio_exec(9 * den - 8 * num, den);
    assert(level <= 9) by (nonlinear_arith)
        requires
            level == round_ratio((9 * den - 8 * num) as nat, den as nat),
            num <= den,
            den >= 1,
    ;
    level as u32
}

/// The throttle a click on `row` of the throttle slider selects.
pub fn throttle_from_slider_row(row: usize, height: usize) -> (r: u64)
    ensures
        r == throttle_for_row(row as nat, height as nat),
{
    let (num, den) = slider_position_exec(row, height);
    let delay = round_ratio_exec(500 * (den - num), den);
    assert(delay <= 500) by (nonlinear_arith)
        requires
            delay == round_ratio((500 * (den - num)) as nat, den as nat),
            num <= den,
            den >= 1,
    ;
    delay as u64
}

} // verus!

verus! {

pub open spec fn sat_sub16(a: u16, b: u16) -> u16 {
    if a >= b { (a - b) as u16 } else { 0 }
}

/// Rows of the controls footer: 6, plus one for every 4 rows beyond 22, at
/// most 10.
pub open spec fn footer_height_spec(rows: u16) -> u16 {
    let extra = sat_sub16(rows, 22) / 4;
    (6 + if extra <= 4 { extra } else { 4 }) as u16
}

/// Rows of the body panels: 11, plus one for every 2 rows beyond 22.
pub open spec fn body_height_spec(rows: u16) -> u16 {
    (11 + sat_sub16(rows, 22) / 2) as u16
}

/// How many slices one page of the split panel shows.
pub open spec fn split_page_size_spec(rows: u16) -> usize {
    let inner = sat_sub16(body_height_spec(rows), 4);
    ((if inner >= 2 { inner } else { 2 }) / 2) as usize
}

pub fn footer_height_for_rows(rows: u16) -> (r: u16)
    ensures
        r == footer_height_spec(rows),
{
    let extra = rows.saturating_sub(22) / 4;
    6 + if extra <= 4 { extra } else { 4 }
}

pub fn body_height_for_rows(rows: u16) -> (r: u16)
    ensures
        r == body_height_spec(rows),
{
    11 + rows.saturating_sub(22) / 2
}

pub fn split_page_size(rows: u16) -> (r: usize)
    ensures
        r == split_page_size_spec(rows),
{
    let inner = body_height_for_rows(rows).saturating_sub(4);
    ((if inner >= 2 { inner } else { 2 }) / 2) as usize
}

/// The first log line shown when `visible_rows` rows show the newest lines
/// `lines_back` lines up from the end (never before the first line).
pub open spec fn log_window_start_spec(log_count: usize, visible_rows: usize, lines_back: usize) -> usize {
    let top = if log_count >= visible_rows { (log_count - visible_rows) as usize } else { 0usize };
    (top - if lines_back <= top { lines_back } else { top }) as usize
}

pub fn log_window_start(log_count: usize, visible_rows: usize, lines_back: usize) -> (r: usize)
    ensures
        r == log_window_start_spec(log_count, visible_rows, lines_back),
{
    let top = log_count.saturating_sub(visible_rows);
    top - if lines_back <= top { lines_back } else { top }
}

/// The keys the dashboard reacts to.
#[derive(Clone, Copy, Debug, PartialEq, Eq, Structural)]
pub enum KeyCommand {
    /// q, Q or Esc.
    Quit,
    /// Enter.
    Confirm,
    /// p or P.
    TogglePause,
    /// i or I.
    ToggleChart,
    /// '-': more throttle.
    ThrottleMore,
    /// '+' or '=': less throttle.
    ThrottleLess,
    /// '[': lower level.
    LevelDown,
    /// ']': higher level.
    LevelUp,
    /// Tab.
    FocusNext,
    PageUp,
    PageDown,
    /// Home: scroll the log to its oldest line.
    LogOldest,
    /// End: follow the newest log line.
    LogNewest,
    Up,
    Down,
    /// Any other key.
    Other,
}

/// What the event loop does after an input.
#[derive(Clone, Copy, Debug, PartialEq, Eq, Structural)]
pub enum RuntimeAction {
    Continue,
    Exit,
    Abort,
}

/// The dashboard, the controls and the log scroll after an input, and what
/// the event loop does next.
pub struct InputOutcome {
    pub view: TuiView,
    pub controls: ControllerSnapshot,
    pub log_scroll: usize,
    pub action: RuntimeAction,
}

pub open spec fn unchanged(s: TuiView, c: ControllerSnapshot, log: usize) -> InputOutcome {
    InputOutcome { view: s, controls: c, log_scroll: log, action: RuntimeAction::Continue }
}

/// One level up or down, within 1 to 9; the dashboard shows the level it
/// asked for.
pub open spec fn level_stepped(s: TuiView, c: ControllerSnapshot, log: usize, up: bool) -> InputOutcome {
    let current = c.compression_level;
    if up && current < 9 {
        InputOutcome {
            view: TuiView { level: (current + 1) as u32, ..s },
            controls: c.after_level_request((current + 1) as u32),
            log_scroll: log,
            action: RuntimeAction::Continue,
        }
    } else if !up && current > 1 {
        InputOutcome {
            view: TuiView { level: (current - 1) as u32, ..s },
            controls: c.after_level_request((current - 1) as u32),
            log_scroll: log,
            action: RuntimeAction::Continue,
        }
    } else {
        unchanged(s, c, log)
    }
}

/// 50 ms more throttle (at most 500) or less (at least none).
pub open spec fn throttle_stepped(
    s: TuiView,
    c: ControllerSnapshot,
    log: usize,
    more: bool,
) -> InputOutcome {
    let current = c.throttle_delay_ms;
    let next: u64 = if more {
        if current + 50 <= MAX_THROTTLE_DELAY_MS { (current + 50) as u64 } else { MAX_THROTTLE_DELAY_MS }
    } else {
        if current >= 50 { (current - 50) as u64 } else { 0 }
    };
    InputOutcome {
        view: TuiView { throttle_delay_ms: next, ..s },
        controls: c.after_throttle_request(next),
        log_scroll: log,
        action: RuntimeAction::Continue,
    }
}

/// Twice or half the chunk size, within the bounds.
pub open spec fn chunk_stepped(s: TuiView, c: ControllerSnapshot, log: usize, up: bool) -> InputOutcome {
    let current = c.chunk_size;
    let next: usize = if up {
        if current * 2 <= MAX_CHUNK_SIZE { (current * 2) as usize } else { MAX_CHUNK_SIZE }
    } else {
        if current / 2 >= MIN_CHUNK_SIZE { (current / 2) as usize } else { MIN_CHUNK_SIZE }
    };
    if crate::pipeline::valid_chunk_size(next as int) {
        InputOutcome {
            view: TuiView { chunk_size: next, ..s },
            controls: c.after_chunk_size_request(next),
            log_scroll: log,
            action: RuntimeAction::Continue,
        }
    } else {
        unchanged(s, c, log)
    }
}

/// One worker more (at most the pool) or fewer (at least one).
pub open spec fn workers_stepped(s: TuiView, c: ControllerSnapshot, log: usize, up: bool) -> InputOutcome {
    let current = c.active_workers;
    let next: usize = if up {
        if current + 1 <= c.max_workers { (current + 1) as usize } else { c.max_workers }
    } else {
        if current >= 2 { (current - 1) as usize } else { 1 }
    };
    if crate::pipeline::valid_active_workers(next as int, c.max_workers as int) {
        InputOutcome {
            view: TuiView { active_workers: next, ..s },
            controls: c.after_workers_request(next),
            log_scroll: log,
            action: RuntimeAction::Continue,
        }
    } else {
        unchanged(s, c, log)
    }
}

/// The split panel one page further or back (within the slices).
pub open spec fn paged(s: TuiView, forward: bool) -> TuiView {
    if s.mode == TuiMode::Split {
        let page = split_page_size_spec(s.terminal_rows);
        let offset = s.split_sector_offset;
        let next: usize = if forward {
            let last = if s.stripes.len() >= page { (s.stripes.len() - page) as usize } else { 0usize };
            if offset + page <= last { (offset + page) as usize } else { last }
        } else {
            if offset >= page { (offset - page) as usize } else { 0 }
        };
        TuiView { split_sector_offset: next, ..s }
    } else {
        s
    }
}

/// The arrow keys adjust the focused control, or scroll the log by a line
/// when nothing is focused.
pub open spec fn arrow_effect(s: TuiView, c: ControllerSnapshot, log: usize, up: bool) -> InputOutcome {
    match s.focused_widget {
        FocusedWidget::CompressionLevelSlider => level_stepped(s, c, log, up),
        FocusedWidget::ThrottleDelaySlider => throttle_stepped(s, c, log, up),
        FocusedWidget::ChunkSizeSlider => chunk_stepped(s, c, log, up),
        FocusedWidget::WorkerCountSlider => workers_stepped(s, c, log, up),
        FocusedWidget::Unfocused => InputOutcome {
            log_scroll: if up {
                if log < usize::MAX { (log + 1) as usize } else { usize::MAX }
            } else {
                if log >= 1 { (log - 1) as usize } else { 0 }
            },
            ..unchanged(s, c, log)
        },
    }
}

/// What a key does. Quitting before the job completed aborts it; the level
/// keys do nothing in split mode.
pub open spec fn key_effect(key: KeyCommand, s: TuiView, c: ControllerSnapshot, log: usize) -> InputOutcome {
    match key {
        KeyCommand::Quit => if s.is_complete {
            InputOutcome { action: RuntimeAction::Exit, ..unchanged(s, c, log) }
        } else {
            InputOutcome {
                controls: c.after_abort(),
                action: RuntimeAction::Abort,
                ..unchanged(s, c, log)
            }
        },
        KeyCommand::Confirm => if s.is_complete {
            InputOutcome { action: RuntimeAction::Exit, ..unchanged(s, c, log) }
        } else {
            unchanged(s, c, log)
        },
        KeyCommand::TogglePause => InputOutcome {
            view: TuiView { is_paused: !c.is_paused, ..s },
            controls: c.with_pause(!c.is_paused),
            ..unchanged(s, c, log)
        },
        KeyCommand::ToggleChart => InputOutcome {
            view: TuiView {
                io_chart_mode: match s.io_chart_mode {
                    crate::tui::IoChartMode::Rate => crate::tui::IoChartMode::Cumulative,
                    crate::tui::IoChartMode::Cumulative => crate::tui::IoChartMode::Rate,
                },
                ..s
            },
            ..unchanged(s, c, log)
        },
        KeyCommand::ThrottleMore => throttle_stepped(s, c, log, true),
        KeyCommand::ThrottleLess => throttle_stepped(s, c, log, false),
        KeyCommand::LevelDown => if s.mode == TuiMode::Split {
            unchanged(s, c, log)
        } else {
            level_stepped(s, c, log, false)
        },
        KeyCommand::LevelUp => if s.mode == TuiMode::Split {
            unchanged(s, c, log)
        } else {
            level_stepped(s, c, log, true)
        },
        KeyCommand::FocusNext => InputOutcome {
            view: TuiView {
                focused_widget: next_focus_for_mode_spec(s.mode, s.focused_widget),
                ..s
            },
            ..unchanged(s, c, log)
        },
        KeyCommand::PageUp => InputOutcome { view: paged(s, false), ..unchanged(s, c, log) },
        KeyCommand::PageDown => InputOutcome { view: paged(s, true), ..unchanged(s, c, log) },
        KeyCommand::LogOldest => InputOutcome { log_scroll: usize::MAX, ..unchanged(s, c, log) },
        KeyCommand::LogNewest => InputOutcome { log_scroll: 0, ..unchanged(s, c, log) },
        KeyCommand::Up => arrow_effect(s, c, log, true),
        KeyCommand::Down => arrow_effect(s, c, log, false),
        KeyCommand::Other => unchanged(s, c, log),
    }
}

/// The throttle keys move the throttle the way their names say: more
/// throttle adds 50 ms up to 500 and never lowers it, less throttle takes
/// 50 ms off down to none and never raises it. The dashboard shows the new
/// throttle, the other controls stay as they were, and on the focused
/// throttle slider Up and Down do the same as more and less.
pub proof fn lemma_throttle_keys_move_the_right_way(s: TuiView, c: ControllerSnapshot, log: usize)
    requires
        c.well_formed(),
    ensures
        ({
            let more = key_effect(KeyCommand::ThrottleMore, s, c, log);
            let less = key_effect(KeyCommand::ThrottleLess, s, c, log);
            &&& more.controls.throttle_delay_ms == (if c.throttle_delay_ms + 50 <= 500 {
                c.throttle_delay_ms + 50
            } else {
                500
            })
            &&& more.controls.throttle_delay_ms >= c.throttle_delay_ms
            &&& less.controls.throttle_delay_ms == (if c.throttle_delay_ms >= 50 {
                c.throttle_delay_ms - 50
            } else {
                0
            })
            &&& less.controls.throttle_delay_ms <= c.throttle_delay_ms
            &&& more.view.throttle_delay_ms == more.controls.throttle_delay_ms
            &&& less.view.throttle_delay_ms == less.controls.throttle_delay_ms
            &&& more.controls == (ControllerSnapshot {
                throttle_delay_ms: more.controls.throttle_delay_ms,
                ..c
            })
            &&& less.controls == (ControllerSnapshot {
                throttle_delay_ms: less.controls.throttle_delay_ms,
                ..c
            })
            &&& s.focused_widget == FocusedWidget::ThrottleDelaySlider ==> key_effect(
                KeyCommand::Up,
                s,
                c,
                log,
            ) == more && key_effect(KeyCommand::Down, s, c, log) == less
        }),
{
}

/// The level keys move the level by one within 1 to 9: ']' raises it unless
/// it is 9, '[' lowers it unless it is 1, the dashboard shows the new
/// level, and nothing else changes. In split mode they do nothing. On the
/// focused level slider Up and Down act as ']' and '['.
pub proof fn lemma_level_keys_step_by_one(s: TuiView, c: ControllerSnapshot, log: usize)
    requires
        valid_level(c.compression_level as int),
    ensures
        ({
            let up = key_effect(KeyCommand::LevelUp, s, c, log);
            let down = key_effect(KeyCommand::LevelDown, s, c, log);
            let level = c.compression_level;
            &&& s.mode == TuiMode::Split ==> up.view == s && up.controls == c && down.view == s
                && down.controls == c
            &&& s.mode != TuiMode::Split && level < 9 ==> up.controls == (ControllerSnapshot {
                compression_level: (level + 1) as u32,
                ..c
            }) && up.view == (TuiView { level: (level + 1) as u32, ..s })
            &&& s.mode != TuiMode::Split && level == 9 ==> up.controls == c && up.view == s
            &&& s.mode != TuiMode::Split && level > 1 ==> down.controls == (ControllerSnapshot {
                compression_level: (level - 1) as u32,
                ..c
            }) && down.view == (TuiView { level: (level - 1) as u32, ..s })
            &&& s.mode != TuiMode::Split && level == 1 ==> down.controls == c && down.view == s
            &&& up.log_scroll == log && down.log_scroll == log
            &&& up.action == RuntimeAction::Continue && down.action == RuntimeAction::Continue
            &&& s.mode != TuiMode::Split && s.focused_widget == FocusedWidget::CompressionLevelSlider
                ==> key_effect(KeyCommand::Up, s, c, log) == up && key_effect(
                KeyCommand::Down,
                s,
                c,
                log,
            ) == down
        }),
{
}

/// Doubling a power of two gives a power of two; so does halving one above
/// one.
proof fn lemma_power_of_two_steps(n: nat)
    requires
        is_power_of_two(n),
    ensures
        is_power_of_two(2 * n),
        n >= 2 ==> is_power_of_two(n / 2) && n % 2 == 0,
{
    assert((2 * n) / 2 == n);
}

/// On the focused chunk-size slider, Up doubles the chunk size (at most the
/// largest size) and Down halves it (at least the smallest): Up never
/// shrinks it, Down never grows it, the dashboard shows the new size, and
/// nothing else changes.
pub proof fn lemma_chunk_slider_doubles_and_halves(s: TuiView, c: ControllerSnapshot, log: usize)
    requires
        c.well_formed(),
        s.focused_widget == FocusedWidget::ChunkSizeSlider,
    ensures
        ({
            let up = key_effect(KeyCommand::Up, s, c, log);
            let down = key_effect(KeyCommand::Down, s, c, log);
            let size = c.chunk_size;
            &&& up.controls.chunk_size == (if 2 * size <= MAX_CHUNK_SIZE {
                2 * size
            } else {
                MAX_CHUNK_SIZE as int
            })
            &&& down.controls.chunk_size == (if size / 2 >= MIN_CHUNK_SIZE {
                size as int / 2
            } else {
                MIN_CHUNK_SIZE as int
            })
            &&& size <= up.controls.chunk_size && down.controls.chunk_size <= size
            &&& up.controls == (ControllerSnapshot { chunk_size: up.controls.chunk_size, ..c })
            &&& down.controls == (ControllerSnapshot { chunk_size: down.controls.chunk_size, ..c })
            &&& up.view == (TuiView { chunk_size: up.controls.chunk_size, ..s })
            &&& down.view == (TuiView { chunk_size: down.controls.chunk_size, ..s })
            &&& up.log_scroll == log && down.log_scroll == log
        }),
{
    let size = c.chunk_size as nat;
    lemma_power_of_two_steps(size);
    assert(is_power_of_two(MAX_CHUNK_SIZE as nat)) by {
        reveal_with_fuel(is_power_of_two, 24);
    }
    assert(is_power_of_two(MIN_CHUNK_SIZE as nat)) by {
        reveal_with_fuel(is_power_of_two, 17);
    }
}

/// On the focused worker slider, Up switches one more worker on (at most
/// the pool) and Down one fewer (at least one); the dashboard shows the new
/// count and nothing else changes.
pub proof fn lemma_worker_slider_steps_by_one(s: TuiView, c: ControllerSnapshot, log: usize)
    requires
        c.well_formed(),
        s.focused_widget == FocusedWidget::WorkerCountSlider,
    ensures
        ({
            let up = key_effect(KeyCommand::Up, s, c, log);
            let down = key_effect(KeyCommand::Down, s, c, log);
            let count = c.active_workers;
            &&& up.controls.active_workers == (if count < c.max_workers {
                count + 1
            } else {
                c.max_workers as int
            })
            &&& down.controls.active_workers == (if count > 1 {
                count - 1
            } else {
                1
            })
            &&& count <= up.controls.active_workers && down.controls.active_workers <= count
            &&& up.controls == (ControllerSnapshot {
                active_workers: up.controls.active_workers,
                ..c
            })
            &&& down.controls == (ControllerSnapshot {
                active_workers: down.controls.active_workers,
                ..c
            })
            &&& up.view == (TuiView { active_workers: up.controls.active_workers, ..s })
            &&& down.view == (TuiView { active_workers: down.controls.active_workers, ..s })
            &&& up.log_scroll == log && down.log_scroll == log
        }),
{
}

/// The pause key flips the pause of the job and the dashboard shows it;
/// pressing it twice leaves the controls as they were.
pub proof fn lemma_pause_key_toggles(s: TuiView, c: ControllerSnapshot, log: usize)
    ensures
        ({
            let once = key_effect(KeyCommand::TogglePause, s, c, log);
            let twice = key_effect(KeyCommand::TogglePause, once.view, once.controls, once.log_scroll);
            &&& once.controls == (ControllerSnapshot { is_paused: !c.is_paused, ..c })
            &&& once.view == (TuiView { is_paused: !c.is_paused, ..s })
            &&& once.action == RuntimeAction::Continue && once.log_scroll == log
            &&& twice.controls == c
            &&& twice.view.is_paused == c.is_paused
        }),
{
}

/// Quitting a finished job just leaves; quitting a running one aborts it
/// and changes nothing else of the controls.
pub proof fn lemma_quit_aborts_unfinished_job(s: TuiView, c: ControllerSnapshot, log: usize)
    ensures
        ({
            let q = key_effect(KeyCommand::Quit, s, c, log);
            &&& s.is_complete ==> q.action == RuntimeAction::Exit && q.controls == c
            &&& !s.is_complete ==> q.action == RuntimeAction::Abort && q.controls == (
            ControllerSnapshot { is_aborted: true, ..c })
            &&& q.view == s && q.log_scroll == log
        }),
{
}

/// Paging moves the split panel by a page: PageDown goes one page further
/// but never past the start of the last full page, PageUp one page back but
/// never before the first slice; nothing else changes, and in stream mode
/// paging does nothing.
pub proof fn lemma_paging_moves_by_a_page(s: TuiView, c: ControllerSnapshot, log: usize)
    requires
        s.stripes.len() <= usize::MAX,
        s.mode == TuiMode::Split ==> s.split_sector_offset + split_page_size_spec(s.terminal_rows)
            <= usize::MAX,
    ensures
        ({
            let down = key_effect(KeyCommand::PageDown, s, c, log);
            let up = key_effect(KeyCommand::PageUp, s, c, log);
            let page = split_page_size_spec(s.terminal_rows);
            let offset = s.split_sector_offset;
            let last: int = if s.stripes.len() >= page { s.stripes.len() - page } else { 0 };
            &&& s.mode != TuiMode::Split ==> down.view == s && up.view == s
            &&& s.mode == TuiMode::Split ==> down.view == (TuiView {
                split_sector_offset: down.view.split_sector_offset,
                ..s
            }) && up.view == (TuiView { split_sector_offset: up.view.split_sector_offset, ..s })
            &&& s.mode == TuiMode::Split ==> down.view.split_sector_offset == (if offset + page
                <= last {
                offset + page
            } else {
                last
            })
            &&& s.mode == TuiMode::Split ==> up.view.split_sector_offset == (if offset >= page {
                offset - page
            } else {
                0
            })
            &&& s.mode == TuiMode::Split ==> up.view.split_sector_offset <= offset
            &&& s.mode == TuiMode::Split && offset <= last ==> down.view.split_sector_offset
                >= offset
            &&& down.controls == c && up.controls == c && down.log_scroll == log && up.log_scroll
                == log
        }),
{
}

/// With nothing focused, Up scrolls the log one line further back and Down
/// one line forward (neither past its end), and nothing else changes.
pub proof fn lemma_unfocused_arrows_scroll_log(s: TuiView, c: ControllerSnapshot, log: usize)
    requires
        s.focused_widget == FocusedWidget::Unfocused,
    ensures
        ({
            let up = key_effect(KeyCommand::Up, s, c, log);
            let down = key_effect(KeyCommand::Down, s, c, log);
            &&& up.log_scroll == (if log < usize::MAX { log + 1 } else { log as int })
            &&& down.log_scroll == (if log > 0 { log - 1 } else { 0 })
            &&& up.view == s && up.controls == c && down.view == s && down.controls == c
        }),
{
}

/// A key that can be handled without an overflow: paging forward must not
/// run past the largest offset.
pub open spec fn key_fits(key: KeyCommand, s: TuiView) -> bool {
    key == KeyCommand::PageDown && s.mode == TuiMode::Split ==> s.split_sector_offset
        + split_page_size_spec(s.terminal_rows) <= usize::MAX
}

} // verus!

verus! {

fn step_level(state: &mut TuiState, controller: &mut PipelineController, up: bool)
    ensures
        final(state)@ == level_stepped(old(state)@, old(controller)@, 0, up).view,
        final(controller)@ == level_stepped(old(state)@, old(controller)@, 0, up).controls,
{
    let current = controller.compression_level();
    if up && current < 9 {
        controller.update_level(current + 1);
        state.level = current + 1;
    } else if !up && current > 1 {
        controller.update_level(current - 1);
        state.level = current - 1;
    }
}

fn step_throttle(state: &mut TuiState, controller: &mut PipelineController, more: bool)
    ensures
        final(state)@ == throttle_stepped(old(state)@, old(controller)@, 0, more).view,
        final(controller)@ == throttle_stepped(old(state)@, old(controller)@, 0, more).controls,
{
    let current = controller.throttle_delay_ms();
    let next = if more {
        if current + 50 <= MAX_THROTTLE_DELAY_MS {
            current + 50
        } else {
            MAX_THROTTLE_DELAY_MS
        }
    } else {
        if current >= 50 {
            current - 50
        } else {
            0
        }
    };
    controller.update_throttle(next);
    state.throttle_delay_ms = next;
}

fn step_chunk(state: &mut TuiState, controller: &mut PipelineController, up: bool)
    ensures
        final(state)@ == chunk_stepped(old(state)@, old(controller)@, 0, up).view,
        final(controller)@ == chunk_stepped(old(state)@, old(controller)@, 0, up).controls,
{
    let current = controller.chunk_size();
    let next = if up {
        if current * 2 <= MAX_CHUNK_SIZE {
            current * 2
        } else {
            MAX_CHUNK_SIZE
        }
    } else {
        if current / 2 >= MIN_CHUNK_SIZE {
            current / 2
        } else {
            MIN_CHUNK_SIZE
        }
    };
    if controller.update_chunk_size(next) {
        state.chunk_size = next;
    }
}

fn step_workers(state: &mut TuiState, controller: &mut PipelineController, up: bool)
    ensures
        final(state)@ == workers_stepped(old(state)@, old(controller)@, 0, up).view,
        final(controller)@ == workers_stepped(old(state)@, old(controller)@, 0, up).controls,
{
    let current = controller.active_workers();
    let pool = controller.max_workers();
    let next = if up {
        if current < pool {
            current + 1
        } else {
            pool
        }
    } else {
        if current >= 2 {
            current - 1
        } else {
            1
        }
    };
    if controller.update_active_workers(next) {
        state.active_workers = next;
    }
}

fn page(state: &mut TuiState, forward: bool)
    requires
        forward && old(state).mode == TuiMode::Split ==> old(state).split_sector_offset
            + split_page_size_spec(old(state).terminal_rows) <= usize::MAX,
    ensures
        final(state)@ == paged(old(state)@, forward),
{
    if state.mode == TuiMode::Split {
        let page = split_page_size(state.terminal_rows);
        let offset = state.split_sector_offset;
        state.split_sector_offset = if forward {
            let last = state.stripes.len().saturating_sub(page);
            if offset + page <= last {
                offset + page
            } else {
                last
            }
        } else {
            offset.saturating_sub(page)
        };
    }
}

fn arrow(state: &mut TuiState, controller: &mut PipelineController, log_scroll: &mut usize, up: bool)
    ensures
        final(state)@ == arrow_effect(old(state)@, old(controller)@, *old(log_scroll), up).view,
        final(controller)@ == arrow_effect(old(state)@, old(controller)@, *old(log_scroll), up).controls,
        *final(log_scroll) == arrow_effect(old(state)@, old(controller)@, *old(log_scroll), up).log_scroll,
{
    match state.focused_widget {
        FocusedWidget::CompressionLevelSlider => step_level(state, controller, up),
        FocusedWidget::ThrottleDelaySlider => step_throttle(state, controller, up),
        FocusedWidget::ChunkSizeSlider => step_chunk(state, controller, up),
        FocusedWidget::WorkerCountSlider => step_workers(state, controller, up),
        FocusedWidget::Unfocused => {
            *log_scroll = if up {
                log_scroll.saturating_add(1)
            } else {
                log_scroll.saturating_sub(1)
            };
        },
    }
}

/// Applies a key to the dashboard, the controls and the log scroll, and
/// says what the event loop does next.
pub fn handle_key(
    key: KeyCommand,
    state: &mut TuiState,
    controller: &mut PipelineController,
    log_scroll: &mut usize,
) -> (action: RuntimeAction)
    requires
        key_fits(key, old(state)@),
    ensures
        final(state)@ == key_effect(key, old(state)@, old(controller)@, *old(log_scroll)).view,
        final(controller)@ == key_effect(key, old(state)@, old(controller)@, *old(log_scroll)).controls,
        *final(log_scroll) == key_effect(key, old(state)@, old(controller)@, *old(log_scroll)).log_scroll,
        action == key_effect(key, old(state)@, old(controller)@, *old(log_scroll)).action,
{
    match key {
        KeyCommand::Quit => {
            if state.is_complete {
                RuntimeAction::Exit
            } else {
                controller.abort();
                RuntimeAction::Abort
            }
        },
        KeyCommand::Confirm => {
            if state.is_complete {
                RuntimeAction::Exit
            } else {
                RuntimeAction::Continue
            }
        },
        KeyCommand::TogglePause => {
            let paused = controller.is_paused();
            if paused {
                controller.resume();
            } else {
                controller.pause();
            }
            state.is_paused = !paused;
            RuntimeAction::Continue
        },
        KeyCommand::ToggleChart => {
            state.toggle_io_chart_mode();
            RuntimeAction::Continue
        },
        KeyCommand::ThrottleMore => {
            step_throttle(state, controller, true);
            RuntimeAction::Continue
        },
        KeyCommand::ThrottleLess => {
            step_throttle(state, controller, false);
            RuntimeAction::Continue
        },
        KeyCommand::LevelDown => {
            if state.mode != TuiMode::Split {
                step_level(state, controller, false);
            }
            RuntimeAction::Continue
        },
        KeyCommand::LevelUp => {
            if state.mode != TuiMode::Split {
                step_level(state, controller, true);
            }
            RuntimeAction::Continue
        },
        KeyCommand::FocusNext => {
            state.focused_widget = next_focus_for_mode(state.mode, state.focused_widget);
            RuntimeAction::Continue
        },
        KeyCommand::PageUp => {
            page(state, false);
            RuntimeAction::Continue
        },
        KeyCommand::PageDown => {
            page(state, true);
            RuntimeAction::Continue
        },
        KeyCommand::LogOldest => {
            *log_scroll = usize::MAX;
            RuntimeAction::Continue
        },
        KeyCommand::LogNewest => {
            *log_scroll = 0;
            RuntimeAction::Continue
        },
        KeyCommand::Up => {
            arrow(state, controller, log_scroll, true);
            RuntimeAction::Continue
        },
        KeyCommand::Down => {
            arrow(state, controller, log_scroll, false);
            RuntimeAction::Continue
        },
        KeyCommand::Other => RuntimeAction::Continue,
    }
}

} // verus!

verus! {

/// The mouse inputs the dashboard reacts to.
#[derive(Clone, Copy, Debug, PartialEq, Eq, Structural)]
pub enum MouseKind {
    ScrollUp,
    ScrollDown,
    /// The left button went down.
    LeftPress,
    /// The mouse moved with the left button held.
    LeftDrag,
    Other,
}

#[derive(Clone, Copy, Debug, PartialEq, Eq, Structural)]
pub struct MouseInput {
    pub kind: MouseKind,
    pub column: u16,
    pub row: u16,
}

/// The log panel spans the rows below the body and above the footer.
pub open spec fn in_log_rows(row: u16, rows: u16) -> bool {
    1 + body_height_spec(rows) <= row && row < sat_sub16(rows, footer_height_spec(rows))
}

/// What a click at `column`, `row` on the footer sliders does: the four
/// sliders are 13 columns wide each, right-aligned in the last 52 columns;
/// in split mode only the throttle and chunk sliders respond.
pub open spec fn click_effect(s: TuiView, c: ControllerSnapshot, log: usize, column: nat, row: nat) -> InputOutcome {
    let footer = footer_height_spec(s.terminal_rows) as nat;
    let cols = s.terminal_cols as nat;
    let left: nat = if cols >= 52 { (cols - 52) as nat } else { 0 };
    let top: nat = ((if s.terminal_rows as nat >= footer { s.terminal_rows as nat - footer } else { 0 }) + 1) as nat;
    let height: nat = if footer >= 2 { (footer - 2) as nat } else { 0 };
    if top <= row < top + height {
        let slider_row = (row - top) as nat;
        if s.mode == TuiMode::Stream && left <= column <= left + 12 {
            let level = level_for_row(slider_row, height) as u32;
            InputOutcome {
                view: TuiView {
                    level,
                    focused_widget: FocusedWidget::CompressionLevelSlider,
                    ..s
                },
                controls: c.after_level_request(level),
                ..unchanged(s, c, log)
            }
        } else if left + 13 <= column <= left + 25 {
            let delay = throttle_for_row(slider_row, height) as u64;
            InputOutcome {
                view: TuiView {
                    throttle_delay_ms: delay,
                    focused_widget: FocusedWidget::ThrottleDelaySlider,
                    ..s
                },
                controls: c.after_throttle_request(delay),
                ..unchanged(s, c, log)
            }
        } else if left + 26 <= column <= left + 38 {
            let size = chunk_size_for_row(slider_row, height) as usize;
            InputOutcome {
                view: TuiView {
                    chunk_size: size,
                    focused_widget: FocusedWidget::ChunkSizeSlider,
                    ..s
                },
                controls: c.after_chunk_size_request(size),
                ..unchanged(s, c, log)
            }
        } else if s.mode == TuiMode::Stream && left + 39 <= column <= left + 51 {
            let workers = workers_for_row(slider_row, height, c.max_workers as nat) as usize;
            InputOutcome {
                view: TuiView {
                    active_workers: workers,
                    focused_widget: FocusedWidget::WorkerCountSlider,
                    ..s
                },
                controls: c.after_workers_request(workers),
                ..unchanged(s, c, log)
            }
        } else {
            unchanged(s, c, log)
        }
    } else {
        unchanged(s, c, log)
    }
}

/// What a mouse input does: the wheel over the log scrolls it by three
/// lines; a left press or drag on a slider sets it, on a terminal of at
/// least 80 by 22.
pub open spec fn mouse_effect(input: MouseInput, s: TuiView, c: ControllerSnapshot, log: usize) -> InputOutcome {
    if in_log_rows(input.row, s.terminal_rows) && input.kind == MouseKind::ScrollUp {
        InputOutcome {
            log_scroll: if log + 3 <= usize::MAX { (log + 3) as usize } else { usize::MAX },
            ..unchanged(s, c, log)
        }
    } else if in_log_rows(input.row, s.terminal_rows) && input.kind == MouseKind::ScrollDown {
        InputOutcome {
            log_scroll: if log >= 3 { (log - 3) as usize } else { 0 },
            ..unchanged(s, c, log)
        }
    } else if (input.kind == MouseKind::LeftPress || input.kind == MouseKind::LeftDrag)
        && s.terminal_cols >= 80 && s.terminal_rows >= 22 {
        click_effect(s, c, log, input.column as nat, input.row as nat)
    } else {
        unchanged(s, c, log)
    }
}

fn click(state: &mut TuiState, controller: &mut PipelineController, column: u16, row: u16)
    ensures
        final(state)@ == click_effect(old(state)@, old(controller)@, 0, column as nat, row as nat).view,
        final(controller)@ == click_effect(old(state)@, old(controller)@, 0, column as nat, row as nat).controls,
{
    let footer = footer_height_for_rows(state.terminal_rows) as usize;
    let left = (state.terminal_cols as usize).saturating_sub(52);
    let top = (state.terminal_rows as usize).saturating_sub(footer) + 1;
    let height = footer.saturating_sub(2);
    let row = row as usize;
    let col = column as usize;
    if row < top || row >= top + height {
        return;
    }
    let slider_row = row - top;
    if state.mode == TuiMode::Stream && left <= col && col <= left + 12 {
        let level = level_from_slider_row(slider_row, height);
        controller.update_level(level);
        state.level = level;
        state.focused_widget = FocusedWidget::CompressionLevelSlider;
    } else if left + 13 <= col && col <= left + 25 {
        let delay = throttle_from_slider_row(slider_row, height);
        controller.update_throttle(delay);
        state.throttle_delay_ms = delay;
        state.focused_widget = FocusedWidget::ThrottleDelaySlider;
    } else if left + 26 <= col && col <= left + 38 {
        let size = chunk_size_from_slider_row(slider_row, height);
        controller.update_chunk_size(size);
        state.chunk_size = size;
        state.focused_widget = FocusedWidget::ChunkSizeSlider;
    } else if state.mode == TuiMode::Stream && left + 39 <= col && col <= left + 51 {
        let workers = workers_from_slider_row(slider_row, height, controller.max_workers());
        controller.update_active_workers(workers);
        state.active_workers = workers;
        state.focused_widget = FocusedWidget::WorkerCountSlider;
    }
}

/// Applies a mouse input to the dashboard, the controls and the log scroll.
pub fn handle_mouse(
    input: MouseInput,
    state: &mut TuiState,
    controller: &mut PipelineController,
    log_scroll: &mut usize,
)
    ensures
        final(state)@ == mouse_effect(input, old(state)@, old(controller)@, *old(log_scroll)).view,
        final(controller)@ == mouse_effect(input, old(state)@, old(controller)@, *old(log_scroll)).controls,
        *final(log_scroll) == mouse_effect(input, old(state)@, old(controller)@, *old(log_scroll)).log_scroll,
{
    let rows = state.terminal_rows;
    let in_logs = 1 + body_height_for_rows(rows) <= input.row && input.row < rows.saturating_sub(
        footer_height_for_rows(rows),
    );
    if in_logs && input.kind == MouseKind::ScrollUp {
        *log_scroll = log_scroll.saturating_add(3);
    } else if in_logs && input.kind == MouseKind::ScrollDown {
        *log_scroll = log_scroll.saturating_sub(3);
    } else if (input.kind == MouseKind::LeftPress || input.kind == MouseKind::LeftDrag)
        && state.terminal_cols >= 80 && state.terminal_rows >= 22 {
        click(state, controller, input.column, input.row);
    }
}

} // verus!
