//! Schedules: the polling interval classes with their cron expressions, and
//! the delay of a one-shot job.

use vstd::prelude::*;
use crate::incident::Timestamp;

verus! {

/// Fires at second 0 of every minute.
pub const ONE_MINUTE_CRON: &'static str = "0 * * * * *";

/// Fires at second 0 of every fifth minute.
pub const FIVE_MINUTE_CRON: &'static str = "0 */5 * * * *";

/// Fires at second 0 of every tenth minute.
pub const TEN_MINUTE_CRON: &'static str = "0 */10 * * * *";

/// Fires at second 0 of every thirtieth minute.
pub const THIRTY_MINUTE_CRON: &'static str = "0 */30 * * * *";

/// Fires at the start of every hour.
pub const ONE_HOUR_CRON: &'static str = "0 0 * * * *";

/// How often a monitor is probed.
#[derive(Copy, Clone, Debug, PartialEq, Eq, Structural)]
pub enum IntervalClass {
    OneMinute,
    FiveMinutes,
    TenMinutes,
    ThirtyMinutes,
    OneHour,
}

/// The interval class that a label stands for. A label that names none of
/// the classes stands for ten minutes.
pub open spec fn interval_class(label: Seq<char>) -> IntervalClass {
    if label == "1"@ {
        IntervalClass::OneMinute
    } else if label == "5"@ {
        IntervalClass::FiveMinutes
    } else if label == "10"@ {
        IntervalClass::TenMinutes
    } else if label == "30"@ {
        IntervalClass::ThirtyMinutes
    } else if label == "60"@ {
        IntervalClass::OneHour
    } else {
        IntervalClass::TenMinutes
    }
}

/// The cron expression of an interval class.
pub open spec fn cron_of(class: IntervalClass) -> Seq<char> {
    match class {
        IntervalClass::OneMinute => ONE_MINUTE_CRON@,
        IntervalClass::FiveMinutes => FIVE_MINUTE_CRON@,
        IntervalClass::TenMinutes => TEN_MINUTE_CRON@,
        IntervalClass::ThirtyMinutes => THIRTY_MINUTE_CRON@,
        IntervalClass::OneHour => ONE_HOUR_CRON@,
    }
}

impl IntervalClass {
    /// Reads an interval class from its label, the number of minutes in
    /// decimal. Any other label gives the ten-minute class.
    pub fn parse(label: &String) -> (res: IntervalClass)
        ensures
            res == interval_class(label@),
    {
        if *label == String::from_str("1") {
            IntervalClass::OneMinute
        } else if *label == String::from_str("5") {
            IntervalClass::FiveMinutes
        } else if *label == String::from_str("10") {
            IntervalClass::TenMinutes
        } else if *label == String::from_str("30") {
            IntervalClass::ThirtyMinutes
        } else if *label == String::from_str("60") {
            IntervalClass::OneHour
        } else {
            IntervalClass::TenMinutes
        }
    }

    /// The number of minutes between two probes.
    pub fn minutes(&self) -> (res: u32)
        ensures
            res == match *self {
                IntervalClass::OneMinute => 1u32,
                IntervalClass::FiveMinutes => 5u32,
                IntervalClass::TenMinutes => 10u32,
                IntervalClass::ThirtyMinutes => 30u32,
                IntervalClass::OneHour => 60u32,
            },
    {
        match self {
            IntervalClass::OneMinute => 1,
            IntervalClass::FiveMinutes => 5,
            IntervalClass::TenMinutes => 10,
            IntervalClass::ThirtyMinutes => 30,
            IntervalClass::OneHour => 60,
        }
    }

    /// The cron expression that fires the class's probes.
    pub fn cron_expr(&self) -> (res: String)
        ensures
            res@ == cron_of(*self),
    {
        match self {
            IntervalClass::OneMinute => String::from_str(ONE_MINUTE_CRON),
            IntervalClass::FiveMinutes => String::from_str(FIVE_MINUTE_CRON),
            IntervalClass::TenMinutes => String::from_str(TEN_MINUTE_CRON),
            IntervalClass::ThirtyMinutes => String::from_str(THIRTY_MINUTE_CRON),
            IntervalClass::OneHour => String::from_str(ONE_HOUR_CRON),
        }
    }
}

/// The cron expression for an interval label.
pub fn cron_for_interval(label: &String) -> (res: String)
    ensures
        res@ == cron_of(interval_class(label@)),
{
    IntervalClass::parse(label).cron_expr()
}

/// A positive span of time: `secs` whole seconds and `micros` microseconds.
#[derive(Copy, Clone, Debug, PartialEq, Eq, Structural)]
pub struct Delay {
    pub secs: u64,
    pub micros: u32,
}

impl Delay {
    /// The span in microseconds.
    pub open spec fn total_micros(self) -> int {
        self.secs * 1_000_000 + self.micros
    }

    /// The microseconds stay below one second, and the span is not empty.
    pub open spec fn wf(self) -> bool {
        self.micros < 1_000_000 && self.total_micros() > 0
    }
}

/// The delay that stands for `micros` microseconds, if that is positive.
pub open spec fn delay_of(micros: int) -> Option<Delay> {
    if 0 < micros && micros / 1_000_000 <= u64::MAX {
        Some(Delay { secs: (micros / 1_000_000) as u64, micros: (micros % 1_000_000) as u32 })
    } else {
        None
    }
}

/// The delay of a one-shot job that is due at `due`, seen from `now`: the
/// time between the two. A job that is already due gets none: the caller
/// does its work at once and schedules nothing.
pub fn one_shot_delay(due: Timestamp, now: Timestamp) -> (res: Option<Delay>)
    ensures
        res == delay_of(due.micros - now.micros),
        res.is_some() == (due.micros > now.micros),
        res matches Some(d) ==> d.wf() && d.total_micros() == due.micros - now.micros,
{
    delay_from_micros(due.micros as i128 - now.micros as i128)
}

/// The delay that stands for a span of `micros` microseconds.
pub fn delay_from_micros(micros: i128) -> (res: Option<Delay>)
    requires
        micros <= 0x4_0000_0000_0000_0000,
    ensures
        res == delay_of(micros as int),
        res.is_some() == (micros > 0),
        res matches Some(d) ==> d.wf() && d.total_micros() == micros,
{
    if micros <= 0 {
        None
    } else {
        let secs: i128 = micros / 1_000_000;
        let rest: i128 = micros % 1_000_000;
        Some(Delay { secs: secs as u64, micros: rest as u32 })
    }
}

} // verus!
