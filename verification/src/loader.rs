//! Instrument ingestion: from region descriptors and the shape of the
//! decoded audio to regions and an instrument.
//!
//! Reading and decoding files is the caller's business. What arrives here
//! are plain values: the descriptor of a region, and for its sample the
//! channel count, sample rate and number of decoded samples.

use crate::sample::{Instrument, Region, RegionDef};
use crate::text::{lowercase, same_text, to_lowercase};
use vstd::prelude::*;

verus! {

/// Why an instrument could not be loaded.
#[derive(Clone, Copy, PartialEq, Eq, Debug, Structural)]
pub enum LoadError {
    /// Decoding a sample produced no audio.
    NoAudioData,
    /// No region survived loading.
    NoRegions,
    /// The file extension names no known instrument format.
    UnknownFormat,
    /// Definition files include one another too deeply, perhaps in a
    /// circle.
    IncludeDepthExceeded,
}

impl LoadError {
    /// A line for a log or a message box.
    pub fn message(&self) -> (r: String)
        ensures
            r@ == match self {
                LoadError::NoAudioData => "No audio data decoded"@,
                LoadError::NoRegions => "No valid regions (check if samples exist)"@,
                LoadError::UnknownFormat => "Unknown format"@,
                LoadError::IncludeDepthExceeded =>
                    "Include depth exceeded (possible circular include)"@,
            },
    {
        match self {
            LoadError::NoAudioData => "No audio data decoded".to_owned(),
            LoadError::NoRegions => "No valid regions (check if samples exist)".to_owned(),
            LoadError::UnknownFormat => "Unknown format".to_owned(),
            LoadError::IncludeDepthExceeded =>
                "Include depth exceeded (possible circular include)".to_owned(),
        }
    }
}

/// The on-disk formats of an instrument definition.
#[derive(Clone, Copy, PartialEq, Eq, Debug, Structural)]
pub enum InstrumentFormat {
    Json,
    Sfz,
}

/// Shape of a decoded audio file; the samples themselves stay with the
/// decoder's caller.
#[derive(Clone, Copy, PartialEq, Eq, Debug)]
pub struct AudioData {
    pub channels: usize,
    pub sample_rate: u32,
    pub num_frames: usize,
}

impl AudioData {
    /// Frames the decoded samples: `sample_count` interleaved samples of
    /// `channels` channels make `sample_count / channels` frames. A decode
    /// that produced nothing is a failure.
    pub fn from_decoded(sample_count: usize, channels: usize, sample_rate: u32) -> (r: Result<
        AudioData,
        LoadError,
    >)
        ensures
            r == if sample_count == 0 || channels == 0 {
                Err::<AudioData, LoadError>(LoadError::NoAudioData)
            } else {
                Ok(
                    AudioData {
                        channels,
                        sample_rate,
                        num_frames: (sample_count / channels) as usize,
                    },
                )
            },
    {
        if sample_count == 0 || channels == 0 {
            return Err(LoadError::NoAudioData);
        }
        Ok(AudioData { channels, sample_rate, num_frames: sample_count / channels })
    }
}

/// The region that a descriptor and its decoded sample make. What the
/// descriptor leaves open takes its default: the full note and velocity
/// range.
pub open spec fn region_of(sample_path: String, def: RegionDef, audio: AudioData) -> Region {
    Region {
        channels: audio.channels,
        num_frames: audio.num_frames,
        root_note: def.root,
        lo_note: def.lo_note.unwrap_or(0),
        hi_note: def.hi_note.unwrap_or(127),
        lo_vel: def.lo_vel.unwrap_or(0),
        hi_vel: def.hi_vel.unwrap_or(127),
        loop_start: def.loop_start,
        loop_end: def.loop_end,
        loop_enabled: def.loop_enabled,
        rr_group: def.rr_group,
        rr_seq: def.rr_seq,
        sample_path,
    }
}

/// Builds the region of a descriptor whose sample was decoded.
pub fn load_region(sample_path: String, def: &RegionDef, audio: &AudioData) -> (r: Region)
    ensures
        r == region_of(sample_path, *def, *audio),
{
    Region {
        channels: audio.channels,
        num_frames: audio.num_frames,
        root_note: def.root,
        lo_note: match def.lo_note {
            Some(note) => note,
            None => 0,
        },
        hi_note: match def.hi_note {
            Some(note) => note,
            None => 127,
        },
        lo_vel: match def.lo_vel {
            Some(velocity) => velocity,
            None => 0,
        },
        hi_vel: match def.hi_vel {
            Some(velocity) => velocity,
            None => 127,
        },
        loop_start: def.loop_start,
        loop_end: def.loop_end,
        loop_enabled: def.loop_enabled,
        rr_group: def.rr_group,
        rr_seq: def.rr_seq,
        sample_path,
    }
}

/// Lets a region through when it is as the data model asks: note and
/// velocity ranges in order and within 0..=127, one or two channels, and,
/// where it loops, a loop window that is not empty and ends within the data.
/// Any other region is malformed and is dropped.
pub fn checked_region(region: Region) -> (r: Option<Region>)
    ensures
        r == if region.well_formed() {
            Some(region)
        } else {
            None
        },
{
    if region.is_well_formed() {
        Some(region)
    } else {
        None
    }
}

/// Puts the loaded regions together. An instrument needs at least one
/// region: a load that lost them all has failed.
pub fn assemble(name: String, regions: Vec<Region>) -> (r: Result<Instrument, LoadError>)
    ensures
        match r {
            Ok(instrument) => regions@.len() > 0 && instrument@.name == name@
                && instrument@.regions == regions@,
            Err(error) => regions@.len() == 0 && error == LoadError::NoRegions,
        },
{
    if regions.len() == 0 {
        return Err(LoadError::NoRegions);
    }
    Ok(Instrument::new(name, regions))
}

/// The format that a file extension selects. The extension is taken as
/// written: `json` or `sfz`, in lower case.
pub fn format_of_extension(extension: &str) -> (r: Result<InstrumentFormat, LoadError>)
    ensures
        r == if extension@ == "json"@ {
            Ok::<InstrumentFormat, LoadError>(InstrumentFormat::Json)
        } else if extension@ == "sfz"@ {
            Ok(InstrumentFormat::Sfz)
        } else {
            Err(LoadError::UnknownFormat)
        },
{
    if same_text(extension, "json") {
        Ok(InstrumentFormat::Json)
    } else if same_text(extension, "sfz") {
        Ok(InstrumentFormat::Sfz)
    } else {
        Err(LoadError::UnknownFormat)
    }
}

/// Whether a file with this extension is offered as an instrument: its
/// lower-case form is `sfz` or `json`.
pub fn is_instrument_file(extension: &str) -> (r: bool)
    ensures
        r == (lowercase(extension@) == "sfz"@ || lowercase(extension@) == "json"@),
{
    let lower = to_lowercase(extension);
    same_text(lower.as_str(), "sfz") || same_text(lower.as_str(), "json")
}

/// The region of the built-in test tone: one mono region of `num_frames`
/// frames that answers every note and velocity, tuned to A4, looping over
/// `[loop_start, loop_end)`.
pub open spec fn test_region(
    path: String,
    num_frames: usize,
    loop_start: usize,
    loop_end: usize,
) -> Region {
    Region {
        channels: 1,
        num_frames,
        root_note: 69,
        lo_note: 0,
        hi_note: 127,
        lo_vel: 0,
        hi_vel: 127,
        loop_start: Some(loop_start),
        loop_end: Some(loop_end),
        loop_enabled: true,
        rr_group: 0,
        rr_seq: 0,
        sample_path: path,
    }
}

/// Create a test instrument around a generated tone.
pub fn create_test_instrument(num_frames: usize, loop_start: usize, loop_end: usize) -> (r:
    Instrument)
    ensures
        r@.name == "Test Sine"@,
        r@.regions.len() == 1,
        r@.regions[0].sample_path@ == "<generated>"@,
        r@.regions[0] == test_region(
            r@.regions[0].sample_path,
            num_frames,
            loop_start,
            loop_end,
        ),
{
    let region = Region {
        channels: 1,
        num_frames,
        root_note: 69,
        lo_note: 0,
        hi_note: 127,
        lo_vel: 0,
        hi_vel: 127,
        loop_start: Some(loop_start),
        loop_end: Some(loop_end),
        loop_enabled: true,
        rr_group: 0,
        rr_seq: 0,
        sample_path: "<generated>".to_owned(),
    };
    let mut regions: Vec<Region> = Vec::new();
    regions.push(region);
    Instrument::new("Test Sine".to_owned(), regions)
}

} // verus!
