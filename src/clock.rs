//! The master clock: a presentation time that advances with the wall clock
//! while playing and stands still while paused.
//!
//! Wall time is passed in as milliseconds of a monotonic clock; the rate is in
//! thousandths (1000 is normal speed).
use vstd::prelude::*;
use vstd::arithmetic::div_mod::lemma_div_is_ordered;
use vstd::arithmetic::mul::lemma_mul_inequality;

verus! {

/// Normal playback rate in thousandths.
pub const NORMAL_RATE: u32 = 1000;

/// Playback clock anchored at `(base_pts, base_wall)`.
pub struct PlaybackClock {
    base_pts: i64,
    base_wall: i64,
    rate_permille: u32,
    paused: bool,
    paused_at: i64,
}

pub struct ClockModel {
    pub base_pts: i64,
    pub base_wall: i64,
    pub rate_permille: u32,
    pub paused: bool,
    pub paused_at: i64,
}

impl View for PlaybackClock {
    type V = ClockModel;

    closed spec fn view(&self) -> ClockModel {
        ClockModel {
            base_pts: self.base_pts,
            base_wall: self.base_wall,
            rate_permille: self.rate_permille,
            paused: self.paused,
            paused_at: self.paused_at,
        }
    }
}

pub open spec fn clamp_i64(v: int) -> i64 {
    if v < i64::MIN {
        i64::MIN
    } else if v > i64::MAX {
        i64::MAX
    } else {
        v as i64
    }
}

/// Wall milliseconds since the anchor; a reading before it counts as none.
pub open spec fn elapsed_ms(c: ClockModel, wall: i64) -> int {
    if wall >= c.base_wall {
        wall - c.base_wall
    } else {
        0
    }
}

/// The clock's reading at wall time `wall`: `paused_at` while paused, else
/// `base_pts + elapsed * rate` (rounded down, kept within `i64`).
pub open spec fn now_spec(c: ClockModel, wall: i64) -> i64 {
    if c.paused {
        c.paused_at
    } else {
        clamp_i64(c.base_pts + elapsed_ms(c, wall) * c.rate_permille / 1000)
    }
}

pub open spec fn set_time_spec(c: ClockModel, pts: i64, wall: i64) -> ClockModel {
    ClockModel { base_pts: pts, base_wall: wall, paused_at: pts, ..c }
}

pub open spec fn play_spec(c: ClockModel, wall: i64) -> ClockModel {
    if c.paused {
        ClockModel { base_pts: c.paused_at, base_wall: wall, paused: false, ..c }
    } else {
        c
    }
}

pub open spec fn pause_spec(c: ClockModel, wall: i64) -> ClockModel {
    if !c.paused {
        ClockModel { paused_at: now_spec(c, wall), paused: true, ..c }
    } else {
        c
    }
}

pub open spec fn set_rate_spec(c: ClockModel, rate: u32, wall: i64) -> ClockModel {
    if !c.paused {
        ClockModel { base_pts: now_spec(c, wall), base_wall: wall, rate_permille: rate, ..c }
    } else {
        ClockModel { rate_permille: rate, ..c }
    }
}

impl PlaybackClock {
    /// A paused clock at 0 running at normal rate.
    pub fn new() -> (r: PlaybackClock)
        ensures
            r@ == (ClockModel {
                base_pts: 0,
                base_wall: 0,
                rate_permille: NORMAL_RATE,
                paused: true,
                paused_at: 0,
            }),
    {
        PlaybackClock { base_pts: 0, base_wall: 0, rate_permille: NORMAL_RATE, paused: true, paused_at: 0 }
    }

    /// Current presentation time in milliseconds at wall time `wall_ms`.
    pub fn now(&self, wall_ms: i64) -> (r: i64)
        ensures
            r == now_spec(self@, wall_ms),
    {
        if self.paused {
            self.paused_at
        } else {
            let elapsed: i128 = if wall_ms >= self.base_wall {
                wall_ms as i128 - self.base_wall as i128
            } else {
                0
            };
            assert(0 <= elapsed < 0x1_0000_0000_0000_0000);
            assert(elapsed * (self.rate_permille as i128) < 0x1_0000_0000_0000_0000 * 0x1_0000_0000)
                by (nonlinear_arith)
                requires
                    0 <= elapsed < 0x1_0000_0000_0000_0000,
                    self.rate_permille < 0x1_0000_0000,
            ;
            assert(elapsed * (self.rate_permille as i128) >= 0) by (nonlinear_arith)
                requires
                    0 <= elapsed,
            ;
            let scaled: i128 = elapsed * (self.rate_permille as i128) / 1000;
            let v: i128 = self.base_pts as i128 + scaled;
            if v < -9223372036854775808i128 {
                i64::MIN
            } else if v > 9223372036854775807i128 {
                i64::MAX
            } else {
                v as i64
            }
        }
    }

    /// Re-anchors the clock at `pts`.
    pub fn set_time(&mut self, pts: i64, wall_ms: i64)
        ensures
            final(self)@ == set_time_spec(old(self)@, pts, wall_ms),
    {
        self.base_pts = pts;
        self.base_wall = wall_ms;
        self.paused_at = pts;
    }

    /// Starts the clock from where it was paused.
    pub fn play(&mut self, wall_ms: i64)
        ensures
            final(self)@ == play_spec(old(self)@, wall_ms),
    {
        if self.paused {
            self.base_pts = self.paused_at;
            self.base_wall = wall_ms;
            self.paused = false;
        }
    }

    /// Freezes the clock at its current reading.
    pub fn pause(&mut self, wall_ms: i64)
        ensures
            final(self)@ == pause_spec(old(self)@, wall_ms),
    {
        if !self.paused {
            self.paused_at = self.now(wall_ms);
            self.paused = true;
        }
    }

    /// Changes the rate, re-anchoring first so that the reading is continuous.
    pub fn set_rate(&mut self, rate_permille: u32, wall_ms: i64)
        requires
            rate_permille > 0,
        ensures
            final(self)@ == set_rate_spec(old(self)@, rate_permille, wall_ms),
    {
        if !self.paused {
            let current = self.now(wall_ms);
            self.base_pts = current;
            self.base_wall = wall_ms;
        }
        self.rate_permille = rate_permille;
    }

    pub fn is_paused(&self) -> (r: bool)
        ensures
            r == self@.paused,
    {
        self.paused
    }
}

/// Between two readings with no re-anchoring in between, the later reading
/// is never smaller.
pub proof fn lemma_clock_monotonic(c: ClockModel, w1: i64, w2: i64)
    requires
        w1 <= w2,
    ensures
        now_spec(c, w1) <= now_spec(c, w2),
{
    if !c.paused {
        let e1 = elapsed_ms(c, w1);
        let e2 = elapsed_ms(c, w2);
        assert(e1 <= e2);
        lemma_mul_inequality(e1, e2, c.rate_permille as int);
        lemma_div_is_ordered(e1 * c.rate_permille, e2 * c.rate_permille, 1000);
    }
}

/// Pausing and then playing again resumes exactly where the pause stopped
/// the clock, whatever wall time passed in between.
pub proof fn lemma_pause_play_keeps_position(c: ClockModel, w1: i64, w2: i64)
    ensures
        now_spec(play_spec(pause_spec(c, w1), w2), w2) == now_spec(c, w1),
{
    let p = pause_spec(c, w1);
    let q = play_spec(p, w2);
    assert(elapsed_ms(q, w2) == 0);
    assert(0int * q.rate_permille / 1000 == 0);
}

/// Changing the rate does not move the reading at the moment of the change.
pub proof fn lemma_set_rate_continuous(c: ClockModel, rate: u32, wall: i64)
    ensures
        now_spec(set_rate_spec(c, rate, wall), wall) == now_spec(c, wall),
{
    let d = set_rate_spec(c, rate, wall);
    if !c.paused {
        assert(elapsed_ms(d, wall) == 0);
        assert(0int * d.rate_permille / 1000 == 0);
    }
}

/// Right after the clock is set to `pts`, it reads `pts`.
pub proof fn lemma_set_time_reads_back(c: ClockModel, pts: i64, wall: i64)
    ensures
        now_spec(set_time_spec(c, pts, wall), wall) == pts,
{
    let d = set_time_spec(c, pts, wall);
    assert(elapsed_ms(d, wall) == 0);
    assert(0int * d.rate_permille / 1000 == 0);
}

/// Right after playing, the clock reads what it read when paused.
pub proof fn lemma_play_reads_paused(c: ClockModel, wall: i64)
    requires
        c.paused,
    ensures
        now_spec(play_spec(c, wall), wall) == c.paused_at,
{
    let d = play_spec(c, wall);
    assert(elapsed_ms(d, wall) == 0);
    assert(0int * d.rate_permille / 1000 == 0);
}

} // verus!
