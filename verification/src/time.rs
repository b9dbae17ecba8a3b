//! The kernel clock, kept in 10 ms ticks with carries into seconds, minutes,
//! hours and days.
use vstd::prelude::*;

verus! {

/// A point in time since the kernel started.
#[derive(Clone, Copy, Debug, PartialEq, Eq, Structural)]
pub struct Time {
    pub m_sec_10: u32,
    pub sec: u32,
    pub min: u32,
    pub hour: u32,
    pub day: u32,
}

/// The largest unit that a tick completed.
#[derive(Clone, Copy, Debug, PartialEq, Eq, Structural)]
pub enum TickType {
    MilliSec10,
    Sec,
    Min,
    Hour,
    Day,
}

/// Number of 10 ms ticks in a day.
pub open spec fn ticks_per_day() -> int {
    8_640_000
}

/// Length of the clock's cycle in ticks: the day counter wraps at `u32::MAX`.
pub open spec fn clock_period() -> int {
    u32::MAX * ticks_per_day()
}

impl Time {
    /// Every field below its carry limit, and the day below its wrap point.
    pub open spec fn in_range(&self) -> bool {
        &&& self.m_sec_10 < 100
        &&& self.sec < 60
        &&& self.min < 60
        &&& self.hour < 24
        &&& self.day < u32::MAX
    }

    /// The time as a count of 10 ms ticks.
    pub open spec fn ticks(&self) -> int {
        (((self.day * 24 + self.hour) * 60 + self.min) * 60 + self.sec) * 100 + self.m_sec_10
    }

    /// The 10 ms field after its increment, before any carry.
    pub open spec fn m_sec_10_step(&self) -> int {
        self.m_sec_10 + 1
    }

    /// The seconds after the carry from the 10 ms field, before their own carry.
    pub open spec fn sec_step(&self) -> int {
        if self.m_sec_10_step() == 100 {
            self.sec + 1
        } else {
            self.sec as int
        }
    }

    /// The minutes after the carry from the seconds, before their own carry.
    pub open spec fn min_step(&self) -> int {
        if self.sec_step() == 60 {
            self.min + 1
        } else {
            self.min as int
        }
    }

    /// The hours after the carry from the minutes, before their own carry.
    pub open spec fn hour_step(&self) -> int {
        if self.min_step() == 60 {
            self.hour + 1
        } else {
            self.hour as int
        }
    }

    /// The days after the carry from the hours, before the wrap.
    pub open spec fn day_step(&self) -> int {
        if self.hour_step() == 24 {
            self.day + 1
        } else {
            self.day as int
        }
    }

    /// No field overflows during a tick.
    pub open spec fn tick_fits(&self) -> bool {
        &&& self.m_sec_10_step() <= u32::MAX
        &&& self.sec_step() <= u32::MAX
        &&& self.min_step() <= u32::MAX
        &&& self.hour_step() <= u32::MAX
        &&& self.day_step() <= u32::MAX
    }

    /// The time one tick later.
    pub open spec fn ticked(&self) -> Time {
        Time {
            m_sec_10: if self.m_sec_10_step() == 100 {
                0
            } else {
                self.m_sec_10_step() as u32
            },
            sec: if self.sec_step() == 60 {
                0
            } else {
                self.sec_step() as u32
            },
            min: if self.min_step() == 60 {
                0
            } else {
                self.min_step() as u32
            },
            hour: if self.hour_step() == 24 {
                0
            } else {
                self.hour_step() as u32
            },
            day: if self.day_step() == u32::MAX {
                0
            } else {
                self.day_step() as u32
            },
        }
    }

    /// The largest unit that the tick completes.
    pub open spec fn tick_type(&self) -> TickType {
        if self.hour_step() == 24 {
            TickType::Day
        } else if self.min_step() == 60 {
            TickType::Hour
        } else if self.sec_step() == 60 {
            TickType::Min
        } else if self.m_sec_10_step() == 100 {
            TickType::Sec
        } else {
            TickType::MilliSec10
        }
    }

    /// Time zero.
    pub fn new() -> (t: Self)
        ensures
            t == (Time { m_sec_10: 0, sec: 0, min: 0, hour: 0, day: 0 }),
    {
        Self { m_sec_10: 0, sec: 0, min: 0, hour: 0, day: 0 }
    }

    /// No field would overflow if the clock ticked now.
    pub fn can_tick(&self) -> (fits: bool)
        ensures
            fits == self.tick_fits(),
    {
        let m = self.m_sec_10 as u64 + 1;
        let s = if m == 100 {
            self.sec as u64 + 1
        } else {
            self.sec as u64
        };
        let mi = if s == 60 {
            self.min as u64 + 1
        } else {
            self.min as u64
        };
        let h = if mi == 60 {
            self.hour as u64 + 1
        } else {
            self.hour as u64
        };
        let d = if h == 24 {
            self.day as u64 + 1
        } else {
            self.day as u64
        };
        let max = u32::MAX as u64;
        m <= max && s <= max && mi <= max && h <= max && d <= max
    }

    /// Advances the clock by 10 ms, carrying into the larger units, and tells
    /// which unit the tick completed.
    pub fn tick(&mut self) -> (res: TickType)
        requires
            old(self).tick_fits(),
        ensures
            *final(self) == old(self).ticked(),
            res == old(self).tick_type(),
    {
        self.m_sec_10 += 1;
        let mut res = TickType::MilliSec10;

        if self.m_sec_10 == 100 {
            self.m_sec_10 = 0;
            self.sec += 1;
            res = TickType::Sec;
        }
        if self.sec == 60 {
            self.sec = 0;
            self.min += 1;
            res = TickType::Min;
        }
        if self.min == 60 {
            self.min = 0;
            self.hour += 1;
            res = TickType::Hour;
        }
        if self.hour == 24 {
            self.hour = 0;
            self.day += 1;
            res = TickType::Day;
        }
        if self.day == u32::MAX {
            self.day = 0;
        }
        res
    }
}

/// A clock whose fields are within their carry limits can always tick, stays
/// within them, and advances by exactly one tick modulo its cycle.
pub proof fn lemma_tick_advances(t: Time)
    requires
        t.in_range(),
    ensures
        t.tick_fits(),
        t.ticked().in_range(),
        0 <= t.ticks() < clock_period(),
        t.ticked().ticks() == (t.ticks() + 1) % clock_period(),
{
    let n = t.ticked().ticks();
    if t.day_step() == u32::MAX {
        assert(t.ticks() + 1 == clock_period());
        assert(n == 0);
        vstd::arithmetic::div_mod::lemma_mod_self_0(clock_period());
    } else {
        assert(n == t.ticks() + 1);
        assert(t.ticks() + 1 < clock_period());
        vstd::arithmetic::div_mod::lemma_small_mod((t.ticks() + 1) as nat, clock_period() as nat);
    }
}

} // verus!
