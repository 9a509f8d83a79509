//! Temperature display scales.

use crate::monitor::text::{contains_chars, str_contains};
use vstd::prelude::*;

verus! {

/// Temperature scale for display.
#[derive(Debug, Clone, Copy, PartialEq, Eq, Structural, Default)]
pub enum TempScale {
    /// Celsius (default).
    #[default]
    Celsius,
    /// Fahrenheit.
    Fahrenheit,
    /// Kelvin.
    Kelvin,
}

impl TempScale {
    /// Returns the unit suffix.
    pub fn suffix(&self) -> (s: &'static str)
        ensures
            s@ == (match *self {
                TempScale::Celsius => "°C"@,
                TempScale::Fahrenheit => "°F"@,
                TempScale::Kelvin => "K"@,
            }),
    {
        match self {
            TempScale::Celsius => "°C",
            TempScale::Fahrenheit => "°F",
            TempScale::Kelvin => "K",
        }
    }
}

/// A sensor that measures the CPU: its chip is `coretemp` or `k10temp`, or its label
/// names a core or the CPU.
pub open spec fn cpu_sensor(hwmon_name: Seq<char>, label: Seq<char>) -> bool {
    ||| hwmon_name == "coretemp"@
    ||| hwmon_name == "k10temp"@
    ||| contains_chars(label, "Core"@)
    ||| contains_chars(label, "CPU"@)
}

/// Whether a reading from chip `hwmon_name` with label `label` is a CPU temperature.
pub fn is_cpu_sensor(hwmon_name: &str, label: &str) -> (b: bool)
    ensures
        b == cpu_sensor(hwmon_name@, label@),
{
    let name = hwmon_name.to_string();
    name == "coretemp".to_string() || name == "k10temp".to_string() || str_contains(label, "Core")
        || str_contains(label, "CPU")
}

} // verus!
