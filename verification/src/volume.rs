//! The volume and mute state of the default audio source (the microphone)
//! and sink (the speaker), from what the audio tool prints about each, and
//! the bar that shows a volume.
//!
//! A volume is kept in hundredths of full scale, so 100 is full scale and a
//! boosted volume is more than 100.

use crate::fixed::{hundredths_value, parse_hundredths};
use crate::text::{contains, decode, has_infix, nth_word, to_chars, words};
use vstd::prelude::*;
use vstd::string::*;
use vstd::utf8::{decode_utf8, valid_utf8};

verus! {

/// The audio tool.
pub const TOOL: &'static str = "wpctl";

/// The tool's command that prints a device's volume.
pub const TOOL_COMMAND: &'static str = "get-volume";

/// The tool's name for the default source.
pub const SOURCE_DEVICE: &'static str = "@DEFAULT_AUDIO_SOURCE@";

/// The tool's name for the default sink.
pub const SINK_DEVICE: &'static str = "@DEFAULT_AUDIO_SINK@";

/// The word that the tool prints for a muted device.
pub const MUTE_MARKER: &'static str = "MUTED";

/// The number of cells of a bar. Each stands for five hundredths.
pub const CELLS: u32 = 20;

/// A cell that the volume reaches.
pub const FILLED: char = '▓';

/// A cell that the volume does not reach.
pub const EMPTY: char = '░';

/// A cell that a boosted volume reaches a second time.
pub const OVERFLOW: char = '█';

/// Why a channel was not refreshed.
#[derive(Debug, Clone, Copy, PartialEq, Eq, Structural)]
pub enum VolumeError {
    /// The audio tool could not be run.
    ToolFailed,
    /// What the tool printed is no UTF-8.
    NotText,
    /// What the tool printed has fewer than two words.
    MissingVolume,
    /// The second word that the tool printed is no number.
    BadVolume,
}

/// Volume, in hundredths of full scale, and mute state of both channels.
pub struct VolumeState {
    pub source_volume: u32,
    pub source_muted: bool,
    pub sink_volume: u32,
    pub sink_muted: bool,
}

/// The bytes that the tool printed, if it ran.
pub open spec fn printed(output: Option<&[u8]>) -> Option<Seq<u8>> {
    match output {
        Some(bytes) => Some(bytes@),
        None => None,
    }
}

/// What the tool's output says of a channel: the volume in hundredths, no
/// more than the largest `u32`, and whether the channel is muted. The volume
/// is the second word of the output; the channel is muted where the output
/// holds the mute marker anywhere.
pub open spec fn report(output: Option<Seq<u8>>) -> Result<(u32, bool), VolumeError> {
    match output {
        None => Err(VolumeError::ToolFailed),
        Some(bytes) => if !valid_utf8(bytes) {
            Err(VolumeError::NotText)
        } else if words(decode_utf8(bytes)).len() < 2 {
            Err(VolumeError::MissingVolume)
        } else {
            match hundredths_value(words(decode_utf8(bytes))[1]) {
                None => Err(VolumeError::BadVolume),
                Some(volume) => Ok((volume, has_infix(decode_utf8(bytes), MUTE_MARKER@))),
            }
        },
    }
}

/// The glyph of the cell at `index` for a volume of `hundredths`.
pub open spec fn cell(hundredths: nat, index: int) -> char {
    if hundredths - 5 * index > 100 {
        OVERFLOW
    } else if hundredths / 5 > index {
        FILLED
    } else {
        EMPTY
    }
}

/// The bar for a volume of `hundredths`.
pub open spec fn bar(hundredths: nat) -> Seq<char> {
    Seq::new(CELLS as nat, |index: int| cell(hundredths, index))
}

/// Whether a cell shows that the volume reaches it, once or twice.
pub open spec fn is_lit(glyph: char) -> bool {
    glyph == FILLED || glyph == OVERFLOW
}

/// The number of cells of `cells` that the volume reaches.
pub open spec fn lit_cells(cells: Seq<char>) -> nat
    decreases cells.len(),
{
    if cells.len() == 0 {
        0
    } else {
        lit_cells(cells.drop_last()) + if is_lit(cells.last()) {
            1nat
        } else {
            0nat
        }
    }
}

/// The first `count` cells of a bar hold as many lit cells as the volume
/// has whole steps of five hundredths, up to `count`.
proof fn lemma_lit_cells_of_prefix(hundredths: nat, count: int)
    requires
        0 <= count <= CELLS,
    ensures
        lit_cells(bar(hundredths).take(count)) == vstd::math::min(hundredths as int / 5, count),
    decreases count,
{
    let cells = bar(hundredths).take(count);
    if count > 0 {
        lemma_lit_cells_of_prefix(hundredths, count - 1);
        assert(cells.drop_last() =~= bar(hundredths).take(count - 1));
        assert(cells.last() == cell(hundredths, count - 1));
    }
}

/// A bar shows one lit cell for each whole five hundredths of the volume,
/// and no more than it has cells.
pub proof fn lemma_bar_lit_cells(hundredths: nat)
    ensures
        lit_cells(bar(hundredths)) == vstd::math::min(hundredths as int / 5, CELLS as int),
{
    lemma_lit_cells_of_prefix(hundredths, CELLS as int);
    assert(bar(hundredths).take(CELLS as int) =~= bar(hundredths));
}

/// Turning the volume up never takes a lit cell away: each cell that was
/// lit stays lit, and the number of lit cells does not go down.
pub proof fn lemma_bar_monotonic(lower: nat, higher: nat)
    requires
        lower <= higher,
    ensures
        lit_cells(bar(lower)) <= lit_cells(bar(higher)),
        forall|index: int|
            0 <= index < CELLS && is_lit(#[trigger] bar(lower)[index]) ==> is_lit(
                bar(higher)[index],
            ),
{
    lemma_bar_lit_cells(lower);
    lemma_bar_lit_cells(higher);
}

/// Reads what the tool printed about one channel.
pub fn read_report(output: Option<&[u8]>) -> (r: Result<(u32, bool), VolumeError>)
    ensures
        r == report(printed(output)),
{
    let bytes = match output {
        Some(bytes) => bytes,
        None => {
            return Err(VolumeError::ToolFailed);
        },
    };
    let text = match decode(bytes) {
        Some(text) => text,
        None => {
            return Err(VolumeError::NotText);
        },
    };
    let marker = to_chars(MUTE_MARKER);
    let muted = contains(text.as_slice(), marker.as_slice());
    match nth_word(text.as_slice(), 1) {
        None => Err(VolumeError::MissingVolume),
        Some(word) => match parse_hundredths(word) {
            None => Err(VolumeError::BadVolume),
            Some(volume) => Ok((volume, muted)),
        },
    }
}

/// The bar for a volume: twenty cells, lit from the left, one for each five
/// hundredths, and lit a second time from the left past full scale.
pub fn ascii_bar(hundredths: u32) -> (s: String)
    ensures
        s@ == bar(hundredths as nat),
{
    let mut out = String::new();
    let mut index: u32 = 0;
    while index < CELLS
        invariant
            index <= CELLS,
            out@ == bar(hundredths as nat).take(index as int),
        decreases CELLS - index,
    {
        let glyph = if hundredths as u64 > 100 + 5 * index as u64 {
            "█"
        } else if hundredths / 5 > index {
            "▓"
        } else {
            "░"
        };
        out.append(glyph);
        proof {
            reveal_strlit("█");
            reveal_strlit("▓");
            reveal_strlit("░");
            assert(glyph@ =~= seq![cell(hundredths as nat, index as int)]);
            assert(bar(hundredths as nat).take(index + 1) =~= bar(hundredths as nat).take(
                index as int,
            ) + seq![cell(hundredths as nat, index as int)]);
        }
        index += 1;
    }
    proof {
        assert(bar(hundredths as nat).take(CELLS as int) =~= bar(hundredths as nat));
    }
    out
}

impl VolumeState {
    /// The state after a report about the source: its two values where the
    /// report is good, and the state as it was where it is not.
    pub open spec fn with_source(self, report: Result<(u32, bool), VolumeError>) -> VolumeState {
        match report {
            Ok((volume, muted)) => VolumeState {
                source_volume: volume,
                source_muted: muted,
                ..self
            },
            Err(_) => self,
        }
    }

    /// The state after a report about the sink: its two values where the
    /// report is good, and the state as it was where it is not.
    pub open spec fn with_sink(self, report: Result<(u32, bool), VolumeError>) -> VolumeState {
        match report {
            Ok((volume, muted)) => VolumeState { sink_volume: volume, sink_muted: muted, ..self },
            Err(_) => self,
        }
    }

    /// What is displayed: the bar of the sink, then that of the source.
    pub open spec fn display(self) -> Seq<char> {
        "Vol: "@ + bar(self.sink_volume as nat) + " Mic: "@ + bar(self.source_volume as nat)
    }

    /// Refreshes both channels, each from what the tool printed about it.
    /// A channel whose output is missing or cannot be read keeps its values,
    /// and the other is refreshed all the same.
    pub fn update(&mut self, source: Option<&[u8]>, sink: Option<&[u8]>)
        ensures
            *final(self) == old(self).with_source(report(printed(source))).with_sink(
                report(printed(sink)),
            ),
    {
        let _ = self.try_update_source(source);
        let _ = self.try_update_sink(sink);
    }

    /// Refreshes the source from what the tool printed about it, or says
    /// why it could not and changes nothing.
    pub fn try_update_source(&mut self, output: Option<&[u8]>) -> (r: Result<(), VolumeError>)
        ensures
            *final(self) == old(self).with_source(report(printed(output))),
            r == match report(printed(output)) {
                Ok(_) => Ok::<(), VolumeError>(()),
                Err(e) => Err(e),
            },
    {
        let (volume, muted) = read_report(output)?;
        self.source_muted = muted;
        self.source_volume = volume;
        Ok(())
    }

    /// Refreshes the sink from what the tool printed about it, or says why
    /// it could not and changes nothing.
    pub fn try_update_sink(&mut self, output: Option<&[u8]>) -> (r: Result<(), VolumeError>)
        ensures
            *final(self) == old(self).with_sink(report(printed(output))),
            r == match report(printed(output)) {
                Ok(_) => Ok::<(), VolumeError>(()),
                Err(e) => Err(e),
            },
    {
        let (volume, muted) = read_report(output)?;
        self.sink_muted = muted;
        self.sink_volume = volume;
        Ok(())
    }

    /// The two bars as text: `Vol: ` and the sink's, ` Mic: ` and the
    /// source's.
    pub fn render(&self) -> (s: String)
        ensures
            s@ == self.display(),
    {
        let volume_display = ascii_bar(self.sink_volume);
        let mic_display = ascii_bar(self.source_volume);
        let mut out = String::new();
        out.append("Vol: ");
        out.append(volume_display.as_str());
        out.append(" Mic: ");
        out.append(mic_display.as_str());
        proof {
            assert(out@ =~= self.display());
        }
        out
    }
}

impl Default for VolumeState {
    /// Both channels silent and not muted.
    fn default() -> (r: Self)
        ensures
            r.source_volume == 0,
            !r.source_muted,
            r.sink_volume == 0,
            !r.sink_muted,
    {
        VolumeState { source_volume: 0, source_muted: false, sink_volume: 0, sink_muted: false }
    }
}

/// The channels do not touch each other: after an update, what the sink
/// holds is the same whatever was reported about the source, and the other
/// way round; and a channel whose report failed holds what it held.
pub proof fn lemma_channels_independent(
    state: VolumeState,
    source: Result<(u32, bool), VolumeError>,
    sink: Result<(u32, bool), VolumeError>,
    other: Result<(u32, bool), VolumeError>,
)
    ensures
        state.with_source(source).with_sink(sink).sink_volume == state.with_source(
            other,
        ).with_sink(sink).sink_volume,
        state.with_source(source).with_sink(sink).sink_muted == state.with_source(other).with_sink(
            sink,
        ).sink_muted,
        state.with_source(source).with_sink(sink).source_volume == state.with_source(
            source,
        ).with_sink(other).source_volume,
        state.with_source(source).with_sink(sink).source_muted == state.with_source(
            source,
        ).with_sink(other).source_muted,
        source is Err ==> state.with_source(source).with_sink(sink).source_volume
            == state.source_volume && state.with_source(source).with_sink(sink).source_muted
            == state.source_muted,
        sink is Err ==> state.with_source(source).with_sink(sink).sink_volume == state.sink_volume
            && state.with_source(source).with_sink(sink).sink_muted == state.sink_muted,
{
}

} // verus!
