//! The data model: one timestamped battery observation.
//!
//! Quantities that the log stores with two decimal places are carried in
//! hundredths: `centi_percent` is the state of charge times ten thousand
//! (percent times one hundred), and the energy and voltage fields are
//! hundredths of a watt-hour or volt.

use vstd::prelude::*;

verus! {

/// The closed set of charging states, with explicit serialization strings.
#[derive(Clone, Copy, PartialEq, Eq, Structural, Debug)]
pub enum ChargeState {
    Charging,
    Discharging,
    Full,
    NotCharging,
    Unknown,
}

/// The serialization string of a charging state, as it appears in the log.
pub open spec fn state_seq(st: ChargeState) -> Seq<char> {
    match st {
        ChargeState::Charging => "Charging"@,
        ChargeState::Discharging => "Discharging"@,
        ChargeState::Full => "Full"@,
        ChargeState::NotCharging => "NotCharging"@,
        ChargeState::Unknown => "Unknown"@,
    }
}

pub fn state_str(st: ChargeState) -> (r: &'static str)
    ensures
        r@ == state_seq(st),
{
    match st {
        ChargeState::Charging => "Charging",
        ChargeState::Discharging => "Discharging",
        ChargeState::Full => "Full",
        ChargeState::NotCharging => "NotCharging",
        ChargeState::Unknown => "Unknown",
    }
}

/// No serialization string contains a delimiter or a line break.
pub proof fn lemma_state_seq_clean(st: ChargeState)
    ensures
        clean_text(state_seq(st)),
{
    reveal_strlit("Charging");
    reveal_strlit("Discharging");
    reveal_strlit("Full");
    reveal_strlit("NotCharging");
    reveal_strlit("Unknown");
}

/// Free text may enter a record only without the field delimiter and without
/// line breaks.
pub open spec fn clean_text(s: Seq<char>) -> bool {
    forall|i: int| 0 <= i < s.len()
        ==> #[trigger] s[i] != ',' && s[i] != '\n' && s[i] != '\r'
}

/// A calendar date and time of day, second precision.
#[derive(Clone, Copy, PartialEq, Eq, Structural, Debug)]
pub struct Timestamp {
    pub year: u32,
    pub month: u32,
    pub day: u32,
    pub hour: u32,
    pub minute: u32,
    pub second: u32,
}

impl Timestamp {
    pub open spec fn wf(self) -> bool {
        1 <= self.month <= 12 && 1 <= self.day <= 31 && self.hour < 24 && self.minute < 60
            && self.second < 60
    }
}

/// What one read of the battery sensor yields, before it is timestamped.
pub struct BatteryReading {
    /// State of charge in hundredths of a percent.
    pub centi_percent: u32,
    /// Model name, free text; commas must have been sanitized away.
    pub model: String,
    pub state: ChargeState,
    pub cycle_count: Option<u32>,
    /// Hundredths of a watt-hour.
    pub centi_energy_full: u64,
    pub centi_energy_full_design: u64,
    pub centi_energy: u64,
    /// Hundredths of a volt.
    pub centi_voltage: u64,
}

/// The mathematical model of a reading.
pub ghost struct ReadingModel {
    pub centi_percent: u32,
    pub model: Seq<char>,
    pub state: ChargeState,
    pub cycle_count: Option<u32>,
    pub centi_energy_full: u64,
    pub centi_energy_full_design: u64,
    pub centi_energy: u64,
    pub centi_voltage: u64,
}

impl View for BatteryReading {
    type V = ReadingModel;

    open spec fn view(&self) -> ReadingModel {
        ReadingModel {
            centi_percent: self.centi_percent,
            model: self.model@,
            state: self.state,
            cycle_count: self.cycle_count,
            centi_energy_full: self.centi_energy_full,
            centi_energy_full_design: self.centi_energy_full_design,
            centi_energy: self.centi_energy,
            centi_voltage: self.centi_voltage,
        }
    }
}

impl ReadingModel {
    pub open spec fn wf(self) -> bool {
        clean_text(self.model)
    }
}

/// One timestamped observation.
pub struct Sample {
    pub stamp: Timestamp,
    pub reading: BatteryReading,
}

pub ghost struct SampleModel {
    pub stamp: Timestamp,
    pub reading: ReadingModel,
}

impl View for Sample {
    type V = SampleModel;

    open spec fn view(&self) -> SampleModel {
        SampleModel { stamp: self.stamp, reading: self.reading@ }
    }
}

impl SampleModel {
    pub open spec fn wf(self) -> bool {
        self.stamp.wf() && self.reading.wf()
    }
}

} // verus!
