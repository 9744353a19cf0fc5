//! A status line for a desktop bar: battery, audio volume, network
//! reachability and the wall clock, each read as plain text or numbers and
//! rendered into one line.
//!
//! The library reads nothing but the clock. Its caller reads the battery's
//! files, runs the audio tool and asks the network manager, hands over what
//! came back, prints the line and waits `REFRESH_MILLIS` before the next
//! round.

use crate::battery::BatteryStatistics;
use crate::network::NetworkState;
use crate::volume::VolumeState;
use vstd::prelude::*;
use vstd::string::*;

pub mod battery;
pub mod decimal;
pub mod fixed;
pub mod network;
pub mod text;
pub mod time;
pub mod volume;

verus! {

/// The time between two lines, in milliseconds.
pub const REFRESH_MILLIS: u64 = 100;

/// The four parts of a line with five spaces between each two.
pub open spec fn joined(
    volume: Seq<char>,
    network: Seq<char>,
    time: Seq<char>,
    battery: Seq<char>,
) -> Seq<char> {
    volume + "     "@ + network + "     "@ + time + "     "@ + battery
}

/// One line: the volume bars, the network glyph, the time and the battery,
/// in this order.
pub fn status_line(
    volume: &VolumeState,
    network: &NetworkState,
    time: &str,
    battery: &BatteryStatistics,
) -> (line: String)
    ensures
        line@ == joined(volume.display(), seq![network@.glyph()], time@, battery.display()),
{
    let mut out = volume.render();
    out.append("     ");
    out.append(network.render().as_str());
    out.append("     ");
    out.append(time);
    out.append("     ");
    out.append(battery.render().as_str());
    out
}

} // verus!
