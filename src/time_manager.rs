use vstd::prelude::*;

verus! {

#[verifier::external_type_specification]
#[verifier::external_body]
pub struct ExInstant(std::time::Instant);

/// Relies on Instant::now: the current moment of the monotonic clock.
#[verifier::external_body]
pub(crate) fn now() -> (r: std::time::Instant) {
    std::time::Instant::now()
}

/// Relies on Instant::elapsed: the time since `start`.
#[verifier::external_body]
pub(crate) fn elapsed_since(start: &std::time::Instant) -> (r: std::time::Duration) {
    start.elapsed()
}

/// Relies on Duration::as_millis: the whole milliseconds of a duration.
#[verifier::external_body]
pub(crate) fn whole_millis(d: &std::time::Duration) -> (r: u128) {
    d.as_millis()
}

/// How the search is bounded.
#[derive(Debug, Clone, Copy, PartialEq, Eq, Structural)]
pub enum TimeControl {
    /// Search to a fixed depth, with no time limit.
    Depth(u8),
    /// A fixed time per move, in milliseconds.
    MoveTime(u64),
    /// Clock times and increments of both sides, in milliseconds.
    TimeIncrement { white_time: u64, black_time: u64, white_inc: u64, black_inc: u64 },
    /// No limit.
    Infinite,
}

/// Moves still expected in the game, by move number.
pub open spec fn estimated_moves(move_number: int) -> int {
    if move_number < 20 {
        30
    } else if 50 - move_number > 20 {
        50 - move_number
    } else {
        20
    }
}

/// Base time for a move: a share of the remaining time plus the increment, at
/// most half the remaining time.
pub open spec fn base_time(remaining: u64, increment: u64, move_number: int) -> int {
    let b = remaining as int / estimated_moves(move_number) + increment as int;
    if b < remaining as int / 2 {
        b
    } else {
        remaining as int / 2
    }
}

/// Hard limit for a move: 80% of the remaining time.
pub open spec fn hard_limit(remaining: u64) -> int {
    remaining as int * 80 / 100
}

/// Whether the next iteration may start after `depth`, `elapsed` ms into the search.
pub open spec fn continue_spec(
    tc: TimeControl,
    allocated: Option<u64>,
    changes: usize,
    depth: u8,
    elapsed: u64,
) -> bool {
    let depth_done = match tc {
        TimeControl::Depth(max) => depth >= max,
        _ => false,
    };
    let time_done = match allocated {
        Some(a) => elapsed as int * 4 >= if changes > 2 { a as int * 13 / 10 } else { a as int },
        None => false,
    };
    !depth_done && !time_done
}

/// Budget of a search.
pub struct TimeManager {
    time_control: TimeControl,
    start_time: std::time::Instant,
    allocated_time: Option<u64>,
    max_time: Option<u64>,
    move_number: usize,
    is_white: bool,
    last_score: Option<i32>,
    last_best_move: Option<u16>,
    best_move_changes: usize,
}

impl TimeManager {
    pub closed spec fn control(&self) -> TimeControl {
        self.time_control
    }

    pub closed spec fn allocated(&self) -> Option<u64> {
        self.allocated_time
    }

    pub closed spec fn hard_max(&self) -> Option<u64> {
        self.max_time
    }

    pub closed spec fn changes(&self) -> usize {
        self.best_move_changes
    }

    pub closed spec fn previous_score(&self) -> Option<i32> {
        self.last_score
    }

    pub closed spec fn previous_move(&self) -> Option<u16> {
        self.last_best_move
    }

    /// Starts the clock for a search under `time_control`.
    pub fn new(time_control: TimeControl, move_number: usize, is_white: bool) -> (r: TimeManager)
        ensures
            r.control() == time_control,
            r.changes() == 0,
            r.previous_score() is None,
            r.previous_move() is None,
            match time_control {
                TimeControl::Depth(_) => r.allocated() is None && r.hard_max() is None,
                TimeControl::Infinite => r.allocated() is None && r.hard_max() is None,
                TimeControl::MoveTime(ms) => r.allocated() == Some(ms) && r.hard_max() == Some(ms),
                TimeControl::TimeIncrement { white_time, black_time, white_inc, black_inc } => {
                    let (rem, inc) = if is_white {
                        (white_time, white_inc)
                    } else {
                        (black_time, black_inc)
                    };
                    &&& r.allocated() is Some
                    &&& r.allocated()->0 as int == base_time(rem, inc, move_number as int)
                    &&& r.hard_max() is Some
                    &&& r.hard_max()->0 as int == hard_limit(rem)
                },
            },
    {
        let (allocated_time, max_time) = match time_control {
            TimeControl::Depth(_) => (None, None),
            TimeControl::MoveTime(ms) => (Some(ms), Some(ms)),
            TimeControl::TimeIncrement { white_time, black_time, white_inc, black_inc } => {
                let (remaining, increment) = if is_white {
                    (white_time, white_inc)
                } else {
                    (black_time, black_inc)
                };
                let (alloc, max) = TimeManager::allocate_time(remaining, increment, move_number);
                (Some(alloc), Some(max))
            },
            TimeControl::Infinite => (None, None),
        };
        TimeManager {
            time_control,
            start_time: now(),
            allocated_time,
            max_time,
            move_number,
            is_white,
            last_score: None,
            last_best_move: None,
            best_move_changes: 0,
        }
    }

    /// (base time, hard limit) in milliseconds for a clock with `remaining_ms` left.
    pub fn allocate_time(remaining_ms: u64, increment_ms: u64, move_number: usize) -> (r: (u64, u64))
        ensures
            r.0 as int == base_time(remaining_ms, increment_ms, move_number as int),
            r.1 as int == hard_limit(remaining_ms),
    {
        let estimated: u64 = if move_number < 20 {
            30
        } else if move_number < 30 {
            (50 - move_number) as u64
        } else {
            20
        };
        let half = remaining_ms / 2;
        let share = remaining_ms / estimated;
        let base = if increment_ms >= half || half - increment_ms <= share {
            half
        } else {
            share + increment_ms
        };
        let absolute_max = ((remaining_ms as u128 * 80) / 100) as u64;
        (base, absolute_max)
    }

    /// Whether the hard limit is reached `elapsed` ms into the search.
    pub fn should_stop_at(&self, elapsed: u64) -> (r: bool)
        ensures
            r == match self.hard_max() {
                Some(m) => elapsed >= m,
                None => false,
            },
    {
        match self.max_time {
            Some(max_ms) => elapsed >= max_ms,
            None => false,
        }
    }

    /// Whether the hard limit is reached now.
    pub fn should_stop(&self) -> (r: bool)
        ensures
            self.hard_max() is None ==> !r,
    {
        let elapsed = self.elapsed_ms();
        self.should_stop_at(elapsed)
    }

    /// Whether to start the iteration after `current_depth`, `elapsed` ms into the search.
    pub fn should_continue_at(&self, current_depth: u8, elapsed: u64) -> (r: bool)
        ensures
            r == continue_spec(self.control(), self.allocated(), self.changes(), current_depth, elapsed),
    {
        if let TimeControl::Depth(max_depth) = self.time_control {
            if current_depth >= max_depth {
                return false;
            }
        }
        if let Some(alloc_ms) = self.allocated_time {
            // The next iteration is assumed to cost about three times all the
            // previous ones; an unstable best move earns 30% more time.
            let threshold: u128 = if self.best_move_changes > 2 {
                alloc_ms as u128 * 13 / 10
            } else {
                alloc_ms as u128
            };
            if elapsed as u128 * 4 >= threshold {
                return false;
            }
        }
        true
    }

    /// Whether to start the iteration after `current_depth`, judged now.
    pub fn should_continue_iteration(&self, current_depth: u8) -> (r: bool)
        ensures
            exists|e: u64|
                r == continue_spec(self.control(), self.allocated(), self.changes(), current_depth, e),
    {
        let elapsed = self.elapsed_ms();
        self.should_continue_at(current_depth, elapsed)
    }

    /// Records an iteration's score and best move; a changed move, or a score
    /// more than 50 centipawns from the last, counts as instability.
    pub fn report_iteration(&mut self, depth: u8, score: i32, best_move: Option<u16>)
        requires
            old(self).changes() < usize::MAX - 1,
        ensures
            final(self).control() == old(self).control(),
            final(self).allocated() == old(self).allocated(),
            final(self).hard_max() == old(self).hard_max(),
            final(self).previous_score() == Some(score),
            final(self).previous_move() == best_move,
            final(self).changes() == old(self).changes() + (match old(self).previous_score() {
                Some(s) => if score - s > 50 || s - score > 50 { 1int } else { 0int },
                None => 0int,
            }) + (match (old(self).previous_move(), best_move) {
                (Some(a), Some(b)) => if a != b { 1int } else { 0int },
                _ => 0int,
            }),
    {
        if let Some(last_score) = self.last_score {
            let diff = score as i64 - last_score as i64;
            if diff > 50 || diff < -50 {
                self.best_move_changes = self.best_move_changes + 1;
            }
        }
        self.last_score = Some(score);
        if let Some(last_move) = self.last_best_move {
            if let Some(current_move) = best_move {
                if last_move != current_move {
                    self.best_move_changes = self.best_move_changes + 1;
                }
            }
        }
        self.last_best_move = best_move;
    }

    /// Milliseconds since the search started.
    pub fn elapsed_ms(&self) -> (r: u64) {
        let d = elapsed_since(&self.start_time);
        let ms = whole_millis(&d);
        if ms > u64::MAX as u128 {
            u64::MAX
        } else {
            ms as u64
        }
    }

    pub fn allocated_time_ms(&self) -> (r: Option<u64>)
        ensures
            r == self.allocated(),
    {
        self.allocated_time
    }

    pub fn best_move_changes(&self) -> (r: usize)
        ensures
            r == self.changes(),
    {
        self.best_move_changes
    }

    /// Whether the hard limit has been reached.
    pub fn search_was_interrupted(&self) -> (r: bool)
        ensures
            self.hard_max() is None ==> !r,
    {
        self.should_stop()
    }
}

impl Default for TimeManager {
    fn default() -> (r: TimeManager)
        ensures
            r.control() == TimeControl::Infinite,
            r.allocated() is None,
    {
        TimeManager::new(TimeControl::Infinite, 1, true)
    }
}

} // verus!
