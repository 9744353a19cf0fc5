//! The battery: its charge state, the power it draws or takes, and how full
//! it is, from the four texts that the kernel's power-supply files hold.
//!
//! Voltage and current come in micro-units, so their product is a power in
//! picowatts, which is kept exactly.

use crate::decimal::{
    decimal, digit_char, digit_text, parse_i64, parse_u8, push_decimal, signed_value,
    unsigned_value,
};
use crate::text::{same_text, to_chars, trim, trimmed};
use vstd::prelude::*;
use vstd::string::*;

verus! {

/// The file that names the charge state.
pub const STATUS_FILE: &'static str = "/sys/class/power_supply/BAT1/status";

/// The file that holds the voltage in micro-volts.
pub const VOLTAGE_FILE: &'static str = "/sys/class/power_supply/BAT1/voltage_now";

/// The file that holds the current in micro-amperes.
pub const CURRENT_FILE: &'static str = "/sys/class/power_supply/BAT1/current_now";

/// The file that holds the charge in percent.
pub const CAPACITY_FILE: &'static str = "/sys/class/power_supply/BAT1/capacity";

/// Picowatts in a tenth of a watt.
pub const PICOWATTS_PER_TENTH: u128 = 100_000_000_000;

/// What the battery is doing.
#[derive(Debug, Clone, Copy, PartialEq, Eq, Structural)]
pub enum ChargeState {
    Full,
    Charging,
    Discharging,
    /// The status file held a text that names none of the states above.
    Anomalous,
    /// The status file could not be read.
    Unknown,
}

/// The four power-supply files as they were read; `None` for one that could
/// not be read.
pub struct BatteryReadings {
    pub status: Option<String>,
    pub voltage_now: Option<String>,
    pub current_now: Option<String>,
    pub capacity: Option<String>,
}

/// The battery as last measured.
#[derive(Debug)]
pub struct BatteryStatistics {
    pub status: ChargeState,
    /// Power in picowatts; negative where the current was reported negative.
    pub picowatts: i128,
    /// Charge in percent.
    pub capacity: u8,
}

/// The characters of a reading.
pub open spec fn content(reading: Option<String>) -> Option<Seq<char>> {
    match reading {
        Some(text) => Some(text@),
        None => None,
    }
}

/// The micro-units that a reading holds: its text, trimmed, as a signed
/// number of 64 bits. `None` for a missing reading or another text.
pub open spec fn micro_units(reading: Option<Seq<char>>) -> Option<int> {
    match reading {
        Some(text) => match signed_value(trimmed(text)) {
            Some(n) => if i64::MIN <= n <= i64::MAX {
                Some(n)
            } else {
                None
            },
            None => None,
        },
        None => None,
    }
}

/// The percentage that a reading holds: its text, trimmed, as an unsigned
/// number of eight bits. `None` for a missing reading or another text.
pub open spec fn percentage(reading: Option<Seq<char>>) -> Option<int> {
    match reading {
        Some(text) => match unsigned_value(trimmed(text)) {
            Some(n) => if n <= u8::MAX {
                Some(n as int)
            } else {
                None
            },
            None => None,
        },
        None => None,
    }
}

/// `value`, or 0 where there is none.
pub open spec fn or_zero(value: Option<int>) -> int {
    match value {
        Some(n) => n,
        None => 0,
    }
}

/// The tenths of a watt nearest to `picowatts` in absolute value; of two
/// that are equally near, the even one.
pub open spec fn rounded_tenths(picowatts: int) -> nat {
    let size = if picowatts < 0 { -picowatts } else { picowatts };
    let below = size / (PICOWATTS_PER_TENTH as int);
    let rest = size % (PICOWATTS_PER_TENTH as int);
    if 2 * rest > PICOWATTS_PER_TENTH || (2 * rest == PICOWATTS_PER_TENTH && below % 2 == 1) {
        (below + 1) as nat
    } else {
        below as nat
    }
}

/// A power in watts with one decimal place, with `-` in front where it is
/// negative.
pub open spec fn watts_text(picowatts: int) -> Seq<char> {
    let tenths = rounded_tenths(picowatts);
    let sign = if picowatts < 0 { seq!['-'] } else { Seq::<char>::empty() };
    sign + decimal(tenths / 10) + seq!['.', digit_char(tenths % 10)]
}

impl ChargeState {
    /// The state that the text of the status file names.
    pub open spec fn of_text(text: Seq<char>) -> ChargeState {
        let name = trimmed(text);
        if name == "Not charging"@ {
            ChargeState::Full
        } else if name == "Discharging"@ {
            ChargeState::Discharging
        } else if name == "Charging"@ {
            ChargeState::Charging
        } else {
            ChargeState::Anomalous
        }
    }

    /// The state that a reading of the status file gives: `Unknown` where
    /// the file could not be read.
    pub open spec fn of_reading(reading: Option<Seq<char>>) -> ChargeState {
        match reading {
            Some(text) => ChargeState::of_text(text),
            None => ChargeState::Unknown,
        }
    }

    /// The state's name as it is displayed.
    pub open spec fn name(self) -> Seq<char> {
        match self {
            ChargeState::Full => "Full"@,
            ChargeState::Charging => "Charging"@,
            ChargeState::Discharging => "Discharging"@,
            ChargeState::Anomalous => "Anomalous"@,
            ChargeState::Unknown => "Unknown"@,
        }
    }

    /// The state that a reading of the status file names, and `None` where
    /// the file could not be read.
    pub fn status(reading: Option<&str>) -> (r: Option<ChargeState>)
        ensures
            r == match reading {
                Some(text) => Some(ChargeState::of_text(text@)),
                None => None,
            },
    {
        match reading {
            Some(text) => {
                let chars = to_chars(text);
                let name = trim(chars.as_slice());
                let full = to_chars("Not charging");
                let discharging = to_chars("Discharging");
                let charging = to_chars("Charging");
                if same_text(name, full.as_slice()) {
                    Some(ChargeState::Full)
                } else if same_text(name, discharging.as_slice()) {
                    Some(ChargeState::Discharging)
                } else if same_text(name, charging.as_slice()) {
                    Some(ChargeState::Charging)
                } else {
                    Some(ChargeState::Anomalous)
                }
            },
            None => None,
        }
    }

    /// The state's name as it is displayed.
    pub fn label(&self) -> (s: &'static str)
        ensures
            s@ == self.name(),
    {
        match self {
            ChargeState::Full => "Full",
            ChargeState::Charging => "Charging",
            ChargeState::Discharging => "Discharging",
            ChargeState::Anomalous => "Anomalous",
            ChargeState::Unknown => "Unknown",
        }
    }
}

/// A reading that was made maps to `Full`, `Discharging`, `Charging` or
/// `Anomalous`: to `Anomalous` exactly where its trimmed text is none of
/// "Not charging", "Discharging" and "Charging". A reading that failed, and
/// no other, maps to `Unknown`.
pub proof fn lemma_status_mapping_total(reading: Option<Seq<char>>)
    ensures
        ChargeState::of_reading(reading) == ChargeState::Unknown <==> reading is None,
        reading matches Some(text) ==> {
            let state = ChargeState::of_reading(reading);
            let name = trimmed(text);
            &&& state == ChargeState::Full <==> name == "Not charging"@
            &&& state == ChargeState::Discharging <==> name == "Discharging"@
            &&& state == ChargeState::Charging <==> name == "Charging"@
            &&& state == ChargeState::Anomalous <==> name != "Not charging"@ && name
                != "Discharging"@ && name != "Charging"@
        },
{
    reveal_strlit("Not charging");
    reveal_strlit("Discharging");
    reveal_strlit("Charging");
    assert("Not charging"@.len() == 12);
    assert("Discharging"@.len() == 11);
    assert("Charging"@.len() == 8);
}

/// The number of micro-units in a reading, and 0 for one that is missing or
/// holds something else.
fn read_micro_units(reading: &Option<String>) -> (n: i64)
    ensures
        n == or_zero(micro_units(content(*reading))),
{
    match reading {
        Some(text) => {
            let chars = to_chars(text.as_str());
            match parse_i64(trim(chars.as_slice())) {
                Some(n) => n,
                None => 0,
            }
        },
        None => 0,
    }
}

/// The percentage in a reading, and 0 for one that is missing or holds
/// something else.
fn read_percentage(reading: &Option<String>) -> (n: u8)
    ensures
        n == or_zero(percentage(content(*reading))),
{
    match reading {
        Some(text) => {
            let chars = to_chars(text.as_str());
            match parse_u8(trim(chars.as_slice())) {
                Some(n) => n,
                None => 0,
            }
        },
        None => 0,
    }
}

/// The product of two numbers of 64 bits fits in 128 bits.
proof fn lemma_product_fits(a: int, b: int)
    requires
        i64::MIN <= a <= i64::MAX,
        i64::MIN <= b <= i64::MAX,
    ensures
        i128::MIN <= a * b <= i128::MAX,
{
    assert(-0x4000_0000_0000_0000_0000_0000_0000_0000 <= a * b
        <= 0x4000_0000_0000_0000_0000_0000_0000_0000) by (nonlinear_arith)
        requires
            -0x8000_0000_0000_0000 <= a <= 0x8000_0000_0000_0000,
            -0x8000_0000_0000_0000 <= b <= 0x8000_0000_0000_0000,
    ;
}

impl BatteryReadings {
    /// The state that the readings give: what the status file names, and
    /// `Unknown` where it could not be read.
    pub open spec fn state(self) -> ChargeState {
        ChargeState::of_reading(content(self.status))
    }

    /// The power in picowatts that the readings give: the product of the
    /// micro-volts and the micro-amperes, each 0 where its file is missing
    /// or holds no number.
    pub open spec fn power(self) -> int {
        or_zero(micro_units(content(self.voltage_now))) * or_zero(
            micro_units(content(self.current_now)),
        )
    }

    /// The charge in percent that the readings give, 0 where the file is
    /// missing or holds no number.
    pub open spec fn charge(self) -> int {
        or_zero(percentage(content(self.capacity)))
    }
}

impl BatteryStatistics {
    /// What is displayed: the state and the charge, and between them the
    /// power unless the battery is full.
    pub open spec fn display(self) -> Seq<char> {
        if self.status == ChargeState::Full {
            self.status.name() + " - "@ + decimal(self.capacity as nat) + "%"@
        } else {
            self.status.name() + ": "@ + watts_text(self.picowatts as int) + "W - "@ + decimal(
                self.capacity as nat,
            ) + "%"@
        }
    }

    /// Takes new readings. Each field is set from its own files: one that
    /// is missing or holds no number counts as 0, and stops nothing else.
    pub fn update(&mut self, readings: &BatteryReadings)
        ensures
            final(self).status == readings.state(),
            final(self).picowatts == readings.power(),
            final(self).capacity == readings.charge(),
    {
        let voltage_now = read_micro_units(&readings.voltage_now);
        let current_now = read_micro_units(&readings.current_now);
        let status = match &readings.status {
            Some(text) => ChargeState::status(Some(text.as_str())),
            None => ChargeState::status(None),
        };
        self.status = match status {
            Some(state) => state,
            None => ChargeState::Unknown,
        };
        self.capacity = read_percentage(&readings.capacity);
        proof {
            lemma_product_fits(voltage_now as int, current_now as int);
        }
        self.picowatts = voltage_now as i128 * current_now as i128;
    }

    /// The battery as text: `Full - 57%`, or `Charging: 12.3W - 80%`.
    pub fn render(&self) -> (s: String)
        ensures
            s@ == self.display(),
    {
        let mut out = String::new();
        out.append(self.status.label());
        if self.status == ChargeState::Full {
            out.append(" - ");
        } else {
            out.append(": ");
            push_watts(&mut out, self.picowatts);
            out.append("W - ");
        }
        push_decimal(&mut out, self.capacity as u128);
        out.append("%");
        proof {
            assert(out@ =~= self.display());
        }
        out
    }
}

/// Writes a power in watts, with one decimal place, at the end of `out`.
fn push_watts(out: &mut String, picowatts: i128)
    ensures
        final(out)@ == old(out)@ + watts_text(picowatts as int),
{
    let size: u128 = if picowatts < 0 {
        (-(picowatts + 1)) as u128 + 1
    } else {
        picowatts as u128
    };
    let below: u128 = size / PICOWATTS_PER_TENTH;
    let rest: u128 = size % PICOWATTS_PER_TENTH;
    let tenths: u128 = if 2 * rest > PICOWATTS_PER_TENTH || (2 * rest == PICOWATTS_PER_TENTH
        && below % 2 == 1) {
        below + 1
    } else {
        below
    };
    if picowatts < 0 {
        out.append("-");
    }
    push_decimal(out, tenths / 10);
    out.append(".");
    out.append(digit_text((tenths % 10) as u8));
    proof {
        reveal_strlit("-");
        reveal_strlit(".");
        assert(out@ =~= old(out)@ + watts_text(picowatts as int));
    }
}

impl Default for BatteryStatistics {
    /// Nothing measured yet: state unknown, no power, no charge.
    fn default() -> (r: Self)
        ensures
            r.status == ChargeState::Unknown,
            r.picowatts == 0,
            r.capacity == 0,
    {
        BatteryStatistics { status: ChargeState::Unknown, picowatts: 0, capacity: 0 }
    }
}

/// Where a file is missing or holds no number, what is computed from it is
/// what the battery starts with, whatever the other files hold: no power
/// without both voltage and current, no charge without a capacity, and an
/// unknown state without a status.
pub proof fn lemma_missing_readings_give_defaults(readings: BatteryReadings)
    ensures
        micro_units(content(readings.voltage_now)) is None || micro_units(
            content(readings.current_now),
        ) is None ==> readings.power() == 0,
        percentage(content(readings.capacity)) is None ==> readings.charge() == 0,
        readings.status is None ==> readings.state() == ChargeState::Unknown,
{
    let v = or_zero(micro_units(content(readings.voltage_now)));
    let c = or_zero(micro_units(content(readings.current_now)));
    assert(v == 0 || c == 0 ==> v * c == 0) by (nonlinear_arith);
}

} // verus!
