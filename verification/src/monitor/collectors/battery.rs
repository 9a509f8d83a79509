//! Battery status as read from `/sys/class/power_supply/`.

use crate::monitor::text::{
    all_ascii, ascii_lowercase, decimal_chars, lowercase_chars, lowercase_string, trim_chars, trim_str,
    u64_to_string,
};
use crate::monitor::types::{duration_from_millis, millis, Collector};
use std::time::Duration;
use vstd::prelude::*;
use vstd::string::StringExecFns;

verus! {

/// Battery charging state.
#[derive(Debug, Clone, Copy, PartialEq, Eq, Structural, Default)]
pub enum BatteryState {
    /// Battery is charging.
    Charging,
    /// Battery is discharging.
    Discharging,
    /// Battery is full.
    Full,
    /// Battery is not charging (plugged in but not charging).
    NotCharging,
    /// Unknown state.
    #[default]
    Unknown,
}

/// The state a lowercase sysfs `status` word names.
pub open spec fn state_of_status(lowered: Seq<char>) -> BatteryState {
    if lowered == "charging"@ {
        BatteryState::Charging
    } else if lowered == "discharging"@ {
        BatteryState::Discharging
    } else if lowered == "full"@ {
        BatteryState::Full
    } else if lowered == "not charging"@ {
        BatteryState::NotCharging
    } else {
        BatteryState::Unknown
    }
}

/// The state named by a lowercase status word.
pub fn state_from_lowercase(lowered: &String) -> (st: BatteryState)
    ensures
        st == state_of_status(lowered@),
{
    if *lowered == "charging".to_string() {
        BatteryState::Charging
    } else if *lowered == "discharging".to_string() {
        BatteryState::Discharging
    } else if *lowered == "full".to_string() {
        BatteryState::Full
    } else if *lowered == "not charging".to_string() {
        BatteryState::NotCharging
    } else {
        BatteryState::Unknown
    }
}

impl BatteryState {
    /// Parses the content of a sysfs `status` file, ignoring surrounding white space and case.
    pub fn from_str(s: &str) -> (st: Self)
        ensures
            st == state_of_status(lowercase_chars(trim_chars(s@))),
            all_ascii(trim_chars(s@)) ==> st == state_of_status(ascii_lowercase(trim_chars(s@))),
    {
        let lowered = lowercase_string(trim_str(s));
        state_from_lowercase(&lowered)
    }

    /// A display character for the state.
    pub fn symbol(&self) -> (c: char)
        ensures
            c == (match *self {
                BatteryState::Charging => '⚡',
                BatteryState::Discharging => '🔋',
                BatteryState::Full => '✓',
                BatteryState::NotCharging => '⏸',
                BatteryState::Unknown => '?',
            }),
    {
        match self {
            BatteryState::Charging => '⚡',
            BatteryState::Discharging => '🔋',
            BatteryState::Full => '✓',
            BatteryState::NotCharging => '⏸',
            BatteryState::Unknown => '?',
        }
    }

    /// True exactly for the charging state.
    pub fn is_charging(&self) -> (b: bool)
        ensures
            b == (*self == BatteryState::Charging),
    {
        match self {
            BatteryState::Charging => true,
            _ => false,
        }
    }
}

/// Information about a battery.
#[derive(Debug, Clone)]
pub struct BatteryInfo {
    /// Battery name (e.g., "BAT0").
    pub name: String,
    /// Current capacity percentage (0-100).
    pub capacity: u8,
    /// Charging state.
    pub state: BatteryState,
    /// Energy now in µWh (if available).
    pub energy_now: Option<u64>,
    /// Energy full in µWh (if available).
    pub energy_full: Option<u64>,
    /// Energy full design in µWh (if available).
    pub energy_full_design: Option<u64>,
    /// Current power draw in µW (if available).
    pub power_now: Option<u64>,
    /// Voltage now in µV (if available).
    pub voltage_now: Option<u64>,
    /// Time to empty in seconds (calculated).
    pub time_to_empty: Option<u64>,
    /// Time to full in seconds (calculated).
    pub time_to_full: Option<u64>,
}

/// The seconds left in the current direction: to empty while discharging,
/// to full while charging, none otherwise.
pub open spec fn remaining_seconds(info: BatteryInfo) -> Option<u64> {
    match info.state {
        BatteryState::Discharging => info.time_to_empty,
        BatteryState::Charging => info.time_to_full,
        _ => None,
    }
}

/// `"{h}h {m}m"` for at least one hour, else `"{m}m"`, for a number of seconds.
pub open spec fn hours_minutes_text(seconds: u64) -> Seq<char> {
    let hours = seconds / 3600;
    let minutes = (seconds % 3600) / 60;
    if hours > 0 {
        decimal_chars(hours as nat) + "h "@ + decimal_chars(minutes as nat) + "m"@
    } else {
        decimal_chars(minutes as nat) + "m"@
    }
}

impl BatteryInfo {
    /// The time remaining in the current direction as text, e.g. `"1h 30m"` or `"30m"`.
    pub fn time_remaining_formatted(&self) -> (r: Option<String>)
        ensures
            remaining_seconds(*self) is None <==> r is None,
            r matches Some(t) ==> t@ == hours_minutes_text(remaining_seconds(*self)->0),
    {
        let seconds = match self.state {
            BatteryState::Discharging => self.time_to_empty,
            BatteryState::Charging => self.time_to_full,
            _ => None,
        };
        let seconds = match seconds {
            Some(s) => s,
            None => return None,
        };
        let hours = seconds / 3600;
        let minutes = (seconds % 3600) / 60;
        if hours > 0 {
            let text = u64_to_string(hours).concat("h ");
            let text = text.concat(u64_to_string(minutes).as_str());
            Some(text.concat("m"))
        } else {
            Some(u64_to_string(minutes).concat("m"))
        }
    }
}

/// Collector for battery metrics.
#[derive(Debug)]
pub struct BatteryCollector {
    /// Detected batteries.
    pub batteries: Vec<BatteryInfo>,
    /// Power supply base path.
    pub power_supply_path: String,
}

impl BatteryCollector {
    /// A collector with no batteries yet, reading from `/sys/class/power_supply`.
    pub fn new() -> (c: Self)
        ensures
            c.batteries@.len() == 0,
            c.power_supply_path@ == "/sys/class/power_supply"@,
    {
        BatteryCollector {
            batteries: Vec::new(),
            power_supply_path: "/sys/class/power_supply".to_string(),
        }
    }

    /// All detected batteries.
    pub fn batteries(&self) -> (r: &[BatteryInfo])
        ensures
            r@ == self.batteries@,
    {
        self.batteries.as_slice()
    }

    /// The primary (first) battery.
    pub fn primary(&self) -> (r: Option<&BatteryInfo>)
        ensures
            r == (if self.batteries@.len() == 0 { None } else { Some(&self.batteries@[0]) }),
    {
        if self.batteries.len() == 0 {
            None
        } else {
            Some(&self.batteries[0])
        }
    }

    /// True when any battery is charging.
    pub fn is_charging(&self) -> (b: bool)
        ensures
            b == exists|i: int| 0 <= i < self.batteries@.len()
                && #[trigger] self.batteries@[i].state == BatteryState::Charging,
    {
        let mut i: usize = 0;
        while i < self.batteries.len()
            invariant
                0 <= i <= self.batteries@.len(),
                forall|j: int| 0 <= j < i ==> #[trigger] self.batteries@[j].state != BatteryState::Charging,
            decreases self.batteries@.len() - i,
        {
            if self.batteries[i].state.is_charging() {
                return true;
            }
            i = i + 1;
        }
        false
    }
}

/// The energy now and energy full summed over the batteries that report both,
/// each sum modulo 2^64.
pub open spec fn energy_sums(bs: Seq<BatteryInfo>) -> (int, int)
    decreases bs.len(),
{
    if bs.len() == 0 {
        (0, 0)
    } else {
        let (e, f) = energy_sums(bs.drop_last());
        let b = bs.last();
        match (b.energy_now, b.energy_full) {
            (Some(now), Some(full)) => ((e + now) % 0x1_0000_0000_0000_0000, (f + full)
                % 0x1_0000_0000_0000_0000),
            _ => (e, f),
        }
    }
}

/// The sum of the batteries' capacity percentages.
pub open spec fn capacity_sum(bs: Seq<BatteryInfo>) -> int
    decreases bs.len(),
{
    if bs.len() == 0 {
        0
    } else {
        capacity_sum(bs.drop_last()) + bs.last().capacity
    }
}

proof fn lemma_capacity_sum_bound(bs: Seq<BatteryInfo>)
    ensures
        0 <= capacity_sum(bs) <= 255 * bs.len(),
    decreases bs.len(),
{
    if bs.len() > 0 {
        lemma_capacity_sum_bound(bs.drop_last());
    }
}

impl BatteryCollector {
    /// Total energy now and total energy full (µWh) over the batteries that report both.
    ///
    /// The percentage of the two is the combined capacity; it is computed in floating
    /// point by the caller.
    pub fn energy_totals(&self) -> (r: (u64, u64))
        ensures
            r.0 == energy_sums(self.batteries@).0,
            r.1 == energy_sums(self.batteries@).1,
    {
        let mut total_energy: u64 = 0;
        let mut total_full: u64 = 0;
        let mut i: usize = 0;
        while i < self.batteries.len()
            invariant
                0 <= i <= self.batteries@.len(),
                total_energy == energy_sums(self.batteries@.subrange(0, i as int)).0,
                total_full == energy_sums(self.batteries@.subrange(0, i as int)).1,
            decreases self.batteries@.len() - i,
        {
            proof {
                assert(self.batteries@.subrange(0, i + 1).drop_last() =~= self.batteries@.subrange(
                    0,
                    i as int,
                ));
            }
            match (self.batteries[i].energy_now, self.batteries[i].energy_full) {
                (Some(now), Some(full)) => {
                    total_energy = total_energy.wrapping_add(now);
                    total_full = total_full.wrapping_add(full);
                },
                _ => {},
            }
            i = i + 1;
        }
        proof {
            assert(self.batteries@.subrange(0, i as int) =~= self.batteries@);
        }
        (total_energy, total_full)
    }

    /// The plain average of the capacity percentages (rounded down), or `None` without
    /// batteries.
    pub fn average_capacity(&self) -> (r: Option<u8>)
        ensures
            self.batteries@.len() == 0 <==> r is None,
            r matches Some(a) ==> a == capacity_sum(self.batteries@) / (self.batteries@.len() as int),
    {
        let n = self.batteries.len();
        if n == 0 {
            return None;
        }
        let mut sum: u128 = 0;
        let mut i: usize = 0;
        while i < n
            invariant
                0 <= i <= n,
                n == self.batteries@.len(),
                sum == capacity_sum(self.batteries@.subrange(0, i as int)),
            decreases n - i,
        {
            proof {
                assert(self.batteries@.subrange(0, i + 1).drop_last() =~= self.batteries@.subrange(
                    0,
                    i as int,
                ));
                lemma_capacity_sum_bound(self.batteries@.subrange(0, i as int));
            }
            sum = sum + self.batteries[i].capacity as u128;
            i = i + 1;
        }
        proof {
            assert(self.batteries@.subrange(0, n as int) =~= self.batteries@);
            lemma_capacity_sum_bound(self.batteries@);
            assert(sum as int / n as int <= 255) by (nonlinear_arith)
                requires sum <= 255 * n, n > 0;
        }
        Some((sum / (n as u128)) as u8)
    }
}

impl Default for BatteryCollector {
    /// Same as `new`.
    fn default() -> (c: Self)
        ensures
            c.batteries@.len() == 0,
            c.power_supply_path@ == "/sys/class/power_supply"@,
    {
        Self::new()
    }
}

impl Collector for BatteryCollector {
    fn id(&self) -> (s: &'static str)
        ensures
            s@ == "battery"@,
    {
        "battery"
    }

    fn display_name(&self) -> (s: &'static str)
        ensures
            s@ == "Battery"@,
    {
        "Battery"
    }

    /// Battery state changes slowly: every five seconds.
    fn interval_hint(&self) -> (d: Duration)
        ensures
            d == millis(5000),
    {
        duration_from_millis(5000)
    }
}

} // verus!
