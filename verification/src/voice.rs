//! One monophonic playback unit: the discrete state of a sounding note.
//!
//! A voice owns its envelope stage and a back-reference, by index, to the
//! region it plays. The fractional read position, the playback rate and the
//! signal path belong to whoever holds the audio; on every sample they hand
//! the voice the integer part of the position and learn where to read.

use crate::dsp::{Adsr, AdsrState};
use crate::sample::{Instrument, Region};
use vstd::prelude::*;

verus! {

/// The state of one voice of the pool.
#[derive(Clone, Copy, Debug, PartialEq, Eq)]
pub struct Voice {
    pub active: bool,
    pub note: u8,
    pub channel: u8,
    pub note_id: Option<i32>,
    /// Index into the regions of the current instrument.
    pub region_idx: usize,
    pub env: Adsr,
    pub releasing: bool,
    /// Allocation timestamp; the lowest is the oldest.
    pub age: u64,
}

impl Voice {
    /// A voice that has never sounded.
    pub open spec fn fresh() -> Voice {
        Voice {
            active: false,
            note: 0,
            channel: 0,
            note_id: None,
            region_idx: 0,
            env: Adsr { state: AdsrState::Idle },
            releasing: false,
            age: 0,
        }
    }

    /// The voice right after a note-on.
    pub open spec fn started(channel: u8, note: u8, region_idx: usize, age: u64) -> Voice {
        Voice {
            active: true,
            note,
            channel,
            note_id: None,
            region_idx,
            env: Adsr { state: AdsrState::Attack },
            releasing: false,
            age,
        }
    }

    /// The voice after a note-off: one that is active and not yet releasing
    /// enters its release, any other stays as it is.
    pub open spec fn released(self) -> Voice {
        if self.active && !self.releasing {
            Voice { releasing: true, env: Adsr { state: self.env.state.released() }, ..self }
        } else {
            self
        }
    }

    /// A note-off for this channel and note, and for this host voice id if
    /// one is given, is meant for this voice.
    pub open spec fn hears(self, channel: u8, note: u8, voice_id: Option<i32>) -> bool {
        &&& self.active
        &&& self.channel == channel
        &&& self.note == note
        &&& (voice_id is None || self.note_id == voice_id)
    }

    /// The voice after it was stopped.
    pub open spec fn stopped(self) -> Voice {
        Voice { active: false, releasing: false, env: Adsr { state: AdsrState::Idle }, ..self }
    }

    /// Where an active voice reads its sample from on this frame, or `None`
    /// when it falls silent: its envelope came to rest, its region is not in
    /// the instrument, or the data ran out with no loop window to return to.
    pub open spec fn reads(self, regions: Seq<Region>, crossed: bool, frame: usize) -> Option<
        int,
    > {
        if !self.active || self.env.state.step(crossed) == AdsrState::Idle || self.region_idx
            >= regions.len() {
            None
        } else {
            regions[self.region_idx as int].playhead(frame, self.releasing)
        }
    }

    /// The voice after one frame: the envelope of an active voice moves on,
    /// and the voice stays active exactly when it still reads a sample.
    pub open spec fn rendered(self, regions: Seq<Region>, crossed: bool, frame: usize) -> Voice {
        if self.active {
            Voice {
                active: self.reads(regions, crossed, frame) is Some,
                env: Adsr { state: self.env.state.step(crossed) },
                ..self
            }
        } else {
            self
        }
    }

    /// A voice that has never sounded.
    pub fn new() -> (r: Voice)
        ensures
            r == Voice::fresh(),
    {
        Voice {
            active: false,
            note: 0,
            channel: 0,
            note_id: None,
            region_idx: 0,
            env: Adsr::new(),
            releasing: false,
            age: 0,
        }
    }

    /// Activates the voice for a note on the given region. Whatever it
    /// played before is forgotten; the envelope begins its attack.
    pub fn start(&mut self, channel: u8, note: u8, region_idx: usize, age: u64)
        ensures
            *final(self) == Voice::started(channel, note, region_idx, age),
    {
        self.active = true;
        self.channel = channel;
        self.note = note;
        self.note_id = None;
        self.region_idx = region_idx;
        self.releasing = false;
        self.age = age;
        self.env.reset();
        self.env.note_on();
    }

    /// Lets an active voice that is not yet releasing enter its release.
    /// Any other voice stays as it is.
    pub fn release(&mut self)
        ensures
            *final(self) == old(self).released(),
    {
        if self.active && !self.releasing {
            self.releasing = true;
            self.env.note_off();
        }
    }

    /// Silences the voice at once.
    pub fn stop(&mut self)
        ensures
            *final(self) == old(self).stopped(),
    {
        self.active = false;
        self.releasing = false;
        self.env.reset();
    }

    /// Renders one frame of the voice's state.
    ///
    /// `crossed` tells whether the level of the current envelope stage
    /// reached its target on this sample, `frame` is the integer part of the
    /// read position. The result is the frame to read at, after loop
    /// handling, or `None` for silence.
    pub fn render(&mut self, instrument: &Instrument, crossed: bool, frame: usize) -> (r: Option<
        usize,
    >)
        ensures
            *final(self) == old(self).rendered(instrument@.regions, crossed, frame),
            match old(self).reads(instrument@.regions, crossed, frame) {
                Some(at) => r is Some && r->0 == at,
                None => r is None,
            },
    {
        if !self.active {
            return None;
        }
        self.env.next(crossed);
        if self.env.is_idle() {
            self.active = false;
            return None;
        }
        let regions = instrument.regions();
        if self.region_idx >= regions.len() {
            self.active = false;
            return None;
        }
        let at = regions[self.region_idx].seek(frame, self.releasing);
        if at.is_none() {
            self.active = false;
        }
        at
    }
}

/// Releasing is idempotent: a second note-off finds the voice releasing
/// and leaves it as the first one made it.
pub proof fn lemma_release_is_idempotent(voice: Voice)
    ensures
        voice.released().released() == voice.released(),
{
}

} // verus!
