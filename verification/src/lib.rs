//! Polyphonic sample-playback engine core: instrument model, round-robin
//! region matching, envelope stages, voice state and voice-pool allocation.

pub mod dsp;
pub mod loader;
pub mod params;
pub mod rotation;
pub mod sample;
pub mod sfz;
pub mod text;
pub mod voice;

use crate::sample::{advance, pick, Instrument, InstrumentView, RoundRobinState, fresh_counters};
use crate::voice::Voice;
use vstd::prelude::*;

verus! {

/// Upper bound of the voice pool.
pub const MAX_VOICES: usize = 64;

/// What one frame did to one slot of the voice pool.
#[derive(Clone, Copy, PartialEq, Eq, Debug)]
pub enum VoiceFrame {
    /// The slot holds no sounding voice.
    Idle,
    /// The voice fell silent on this frame; its identity is reported so that
    /// a host can release its own bookkeeping.
    Terminated { voice_id: Option<i32>, channel: u8, note: u8 },
    /// The voice sounds and reads its sample at `frame`.
    Sounding { frame: usize },
}

/// A note event of a block, with its place in the block.
#[derive(Clone, Copy, PartialEq, Eq, Debug)]
pub enum NoteEvent {
    NoteOn { timing: u32, channel: u8, note: u8, velocity: u8, voice_id: Option<i32> },
    NoteOff { timing: u32, channel: u8, note: u8, voice_id: Option<i32> },
    /// Any other event; the engine does not act on it.
    Other { timing: u32 },
}

impl NoteEvent {
    /// The frame of the block at which the event takes effect.
    pub open spec fn timing(self) -> u32 {
        match self {
            NoteEvent::NoteOn { timing, .. } => timing,
            NoteEvent::NoteOff { timing, .. } => timing,
            NoteEvent::Other { timing } => timing,
        }
    }
}

/// What became of an event that was offered to the engine.
#[derive(Clone, Copy, PartialEq, Eq, Debug)]
pub enum EventOutcome {
    /// The event belongs to another frame; nothing was done, and no later
    /// event is due before it.
    NotDue,
    /// A note-on started the voice in `slot` on `region`.
    Started { slot: usize, region: usize },
    /// A note-on found no region, or no voice to play it.
    Dropped,
    /// A note-off was applied.
    Released,
    /// The event is none that the engine acts on.
    Ignored,
}

/// What the engine is, seen from outside.
pub struct SamploView {
    pub voices: Seq<Voice>,
    pub instrument: InstrumentView,
    /// Round-robin counters, by (note, group).
    pub counters: Map<(u8, u32), u32>,
    pub frame_counter: u64,
    pub current_instrument_idx: usize,
}

impl SamploView {
    /// `self` is the engine after a note-on that was answered with `r`.
    ///
    /// The region is resolved with round robin, which moves the counters on.
    /// Where a region matches and the pool is not empty, the voice in the
    /// allocated slot starts on that region, stamped with the current frame
    /// count and the host's voice id, and `r` names slot and region. Otherwise
    /// `r` is `None` and no voice changes.
    pub open spec fn follows_note_on(
        self,
        before: SamploView,
        channel: u8,
        note: u8,
        velocity: u8,
        voice_id: Option<i32>,
        r: Option<(usize, usize)>,
    ) -> bool {
        let picked = pick(before.instrument.regions, note, velocity, before.counters);
        &&& self.counters == advance(before.instrument.regions, note, velocity, before.counters)
        &&& self.instrument == before.instrument
        &&& self.frame_counter == before.frame_counter
        &&& self.current_instrument_idx == before.current_instrument_idx
        &&& match r {
            Some((slot, region)) => {
                &&& picked == Some(region)
                &&& region < before.instrument.regions.len()
                &&& before.voices.len() > 0
                &&& is_allocation(before.voices, slot as int)
                &&& self.voices == before.voices.update(
                    slot as int,
                    Voice {
                        note_id: voice_id,
                        ..Voice::started(channel, note, region, before.frame_counter)
                    },
                )
            },
            None => {
                &&& picked is None || before.voices.len() == 0
                &&& self.voices == before.voices
            },
        }
    }

    /// `self` is the engine after a note-off: every voice that the note-off
    /// is meant for is released, and nothing else changes.
    pub open spec fn follows_note_off(
        self,
        before: SamploView,
        channel: u8,
        note: u8,
        voice_id: Option<i32>,
    ) -> bool {
        &&& self.voices.len() == before.voices.len()
        &&& forall|i: int|
            0 <= i < self.voices.len() ==> #[trigger] self.voices[i] == if before.voices[i].hears(
                channel,
                note,
                voice_id,
            ) {
                before.voices[i].released()
            } else {
                before.voices[i]
            }
        &&& self.instrument == before.instrument
        &&& self.counters == before.counters
        &&& self.frame_counter == before.frame_counter
        &&& self.current_instrument_idx == before.current_instrument_idx
    }
}

/// Slot that a note-on takes: the first inactive voice, or, when every
/// voice sounds, the first among those allocated longest ago. With an empty
/// pool there is no slot and the answer is 0.
pub open spec fn is_allocation(voices: Seq<Voice>, slot: int) -> bool {
    if voices.len() == 0 {
        slot == 0
    } else {
        &&& 0 <= slot < voices.len()
        &&& if exists|i: int| 0 <= i < voices.len() && !(#[trigger] voices[i]).active {
            &&& !voices[slot].active
            &&& forall|j: int| 0 <= j < slot ==> (#[trigger] voices[j]).active
        } else {
            &&& forall|j: int|
                0 <= j < voices.len() ==> voices[slot].age <= (#[trigger] voices[j]).age
            &&& forall|j: int| 0 <= j < slot ==> voices[slot].age < (#[trigger] voices[j]).age
        }
    }
}

/// A note that has a region is never dropped while the pool holds a voice:
/// the note-on takes a free voice or else repurposes the oldest one, and that
/// voice plays the new note afterwards.
pub proof fn lemma_note_on_finds_a_voice(
    after: SamploView,
    before: SamploView,
    channel: u8,
    note: u8,
    velocity: u8,
    voice_id: Option<i32>,
    r: Option<(usize, usize)>,
)
    requires
        after.follows_note_on(before, channel, note, velocity, voice_id, r),
        pick(before.instrument.regions, note, velocity, before.counters) is Some,
        before.voices.len() > 0,
    ensures
        r matches Some((started, region)) && ({
            let slot = started as int;
            &&& 0 <= slot < after.voices.len()
            &&& after.voices.len() == before.voices.len()
            &&& after.voices[slot].active
            &&& !after.voices[slot].releasing
            &&& after.voices[slot].note == note
            &&& after.voices[slot].channel == channel
            &&& after.voices[slot].note_id == voice_id
            &&& after.voices[slot].region_idx == region
            &&& (forall|i: int| 0 <= i < before.voices.len() ==> (#[trigger] before.voices[i]).active)
                ==> forall|i: int|
                0 <= i < before.voices.len() ==> before.voices[slot].age <= (
                #[trigger] before.voices[i]).age
        }),
{
}

/// The voice pool and what it plays from: the render engine's discrete
/// state.
pub struct Samplo {
    voices: Vec<Voice>,
    instrument: Instrument,
    rr_state: RoundRobinState,
    frame_counter: u64,
    current_instrument_idx: usize,
}

impl View for Samplo {
    type V = SamploView;

    closed spec fn view(&self) -> SamploView {
        SamploView {
            voices: self.voices@,
            instrument: self.instrument@,
            counters: self.rr_state@,
            frame_counter: self.frame_counter,
            current_instrument_idx: self.current_instrument_idx,
        }
    }
}

impl Default for Samplo {
    fn default() -> (r: Self)
        ensures
            r@.voices.len() == MAX_VOICES,
            forall|i: int| 0 <= i < MAX_VOICES ==> r@.voices[i] == Voice::fresh(),
            r@.instrument.name == "Empty"@,
            r@.instrument.regions.len() == 0,
            r@.counters == fresh_counters(),
            r@.frame_counter == 0,
            r@.current_instrument_idx == 0,
    {
        let mut voices: Vec<Voice> = Vec::new();
        while voices.len() < MAX_VOICES
            invariant
                voices.len() <= MAX_VOICES,
                forall|i: int| 0 <= i < voices.len() ==> voices[i] == Voice::fresh(),
            decreases MAX_VOICES - voices.len(),
        {
            voices.push(Voice::new());
        }
        Samplo {
            voices,
            instrument: Instrument::empty(),
            rr_state: RoundRobinState::new(),
            frame_counter: 0,
            current_instrument_idx: 0,
        }
    }
}

impl Samplo {
    /// The voice pool.
    pub fn voices(&self) -> (r: &Vec<Voice>)
        ensures
            r@ == self@.voices,
    {
        &self.voices
    }

    /// The instrument that is played.
    pub fn instrument(&self) -> (r: &Instrument)
        ensures
            r@ == self@.instrument,
    {
        &self.instrument
    }

    /// Number of blocks begun so far; it stamps the voices that start.
    pub fn frame_counter(&self) -> (r: u64)
        ensures
            r == self@.frame_counter,
    {
        self.frame_counter
    }

    /// The instrument selection that was seen last.
    pub fn current_instrument_idx(&self) -> (r: usize)
        ensures
            r == self@.current_instrument_idx,
    {
        self.current_instrument_idx
    }

    /// Forgets all playback history: every voice is as new, the round-robin
    /// counters and the frame counter start over. The instrument stays.
    pub fn reset(&mut self)
        ensures
            final(self)@.voices.len() == old(self)@.voices.len(),
            forall|i: int|
                0 <= i < final(self)@.voices.len() ==> final(self)@.voices[i] == Voice::fresh(),
            final(self)@.counters == fresh_counters(),
            final(self)@.frame_counter == 0,
            final(self)@.instrument == old(self)@.instrument,
            final(self)@.current_instrument_idx == old(self)@.current_instrument_idx,
    {
        self.frame_counter = 0;
        self.rr_state.reset();
        let count: usize = self.voices.len();
        let mut i: usize = 0;
        while i < count
            invariant
                i <= count,
                count == self.voices.len(),
                forall|j: int| 0 <= j < i ==> self.voices[j] == Voice::fresh(),
                self.rr_state@ == fresh_counters(),
                self.frame_counter == 0,
                self.instrument == old(self).instrument,
                self.current_instrument_idx == old(self).current_instrument_idx,
            decreases count - i,
        {
            self.voices[i] = Voice::new();
            i += 1;
        }
    }

    /// Starts a block: counts it, follows the instrument selection and
    /// brings the pool to the wanted size.
    ///
    /// Returns the newly selected instrument index when the selection moved;
    /// the caller then loads that instrument and hands it to
    /// [`Samplo::set_instrument`]. A negative selection counts as 0.
    pub fn begin_block(&mut self, instrument_index: i32, desired_voices: usize) -> (r: Option<
        usize,
    >)
        ensures
            final(self)@.frame_counter == if old(self)@.frame_counter == u64::MAX {
                0
            } else {
                old(self)@.frame_counter + 1
            },
            final(self)@.current_instrument_idx == if instrument_index < 0 {
                0
            } else {
                instrument_index as int
            },
            r == if final(self)@.current_instrument_idx != old(self)@.current_instrument_idx {
                Some(final(self)@.current_instrument_idx)
            } else {
                None
            },
            resized(old(self)@.voices, final(self)@.voices, desired_voices),
            final(self)@.instrument == old(self)@.instrument,
            final(self)@.counters == old(self)@.counters,
    {
        self.frame_counter = self.frame_counter.wrapping_add(1);
        let selected: usize = if instrument_index < 0 {
            0
        } else {
            instrument_index as usize
        };
        let moved = selected != self.current_instrument_idx;
        self.current_instrument_idx = selected;
        self.resize_voice_pool(desired_voices);
        if moved {
            Some(selected)
        } else {
            None
        }
    }

    /// Replaces the instrument. Round-robin history belongs to the old
    /// instrument and is dropped, and every voice is stopped, since its region
    /// index refers to the old region list.
    pub fn set_instrument(&mut self, instrument: Instrument)
        ensures
            final(self)@.instrument == instrument@,
            final(self)@.counters == fresh_counters(),
            final(self)@.voices.len() == old(self)@.voices.len(),
            forall|i: int|
                0 <= i < final(self)@.voices.len() ==> final(self)@.voices[i] == old(
                    self,
                )@.voices[i].stopped(),
            final(self)@.frame_counter == old(self)@.frame_counter,
            final(self)@.current_instrument_idx == old(self)@.current_instrument_idx,
    {
        self.instrument = instrument;
        self.rr_state.reset();
        let count: usize = self.voices.len();
        let mut i: usize = 0;
        while i < count
            invariant
                i <= count,
                count == self.voices.len(),
                count == old(self).voices.len(),
                forall|j: int| 0 <= j < i ==> self.voices[j] == old(self).voices[j].stopped(),
                forall|j: int| i <= j < count ==> self.voices[j] == old(self).voices[j],
                self.rr_state@ == fresh_counters(),
                self.instrument@ == instrument@,
                self.frame_counter == old(self).frame_counter,
                self.current_instrument_idx == old(self).current_instrument_idx,
            decreases count - i,
        {
            self.voices[i].stop();
            i += 1;
        }
    }

    /// Brings the pool to `target` voices, at most [`MAX_VOICES`]. Growing
    /// appends fresh voices; shrinking drops the highest-indexed ones, sounding
    /// or not.
    pub fn resize_voice_pool(&mut self, target: usize)
        ensures
            resized(old(self)@.voices, final(self)@.voices, target),
            final(self)@.instrument == old(self)@.instrument,
            final(self)@.counters == old(self)@.counters,
            final(self)@.frame_counter == old(self)@.frame_counter,
            final(self)@.current_instrument_idx == old(self)@.current_instrument_idx,
    {
        let target: usize = if target < MAX_VOICES {
            target
        } else {
            MAX_VOICES
        };
        if target < self.voices.len() {
            self.voices.truncate(target);
        }
        while self.voices.len() < target
            invariant
                target <= MAX_VOICES,
                self.voices.len() <= target || target < old(self).voices.len(),
                forall|j: int|
                    0 <= j < self.voices.len() ==> self.voices[j] == if j < old(
                        self,
                    ).voices.len() {
                        old(self).voices[j]
                    } else {
                        Voice::fresh()
                    },
                target < old(self).voices.len() ==> self.voices.len() == target,
                target >= old(self).voices.len() ==> self.voices.len() >= old(self).voices.len(),
                self.rr_state == old(self).rr_state,
                self.instrument == old(self).instrument,
                self.frame_counter == old(self).frame_counter,
                self.current_instrument_idx == old(self).current_instrument_idx,
            decreases target - self.voices.len(),
        {
            self.voices.push(Voice::new());
        }
    }

    /// Picks the slot for a new note.
    pub fn alloc_voice(&self) -> (slot: usize)
        ensures
            is_allocation(self@.voices, slot as int),
    {
        let count: usize = self.voices.len();
        let mut i: usize = 0;
        while i < count
            invariant
                i <= count,
                count == self.voices.len(),
                forall|j: int| 0 <= j < i ==> (#[trigger] self.voices[j]).active,
            decreases count - i,
        {
            if !self.voices[i].active {
                return i;
            }
            i += 1;
        }
        let mut oldest_idx: usize = 0;
        let mut oldest_age: u64 = u64::MAX;
        i = 0;
        while i < count
            invariant
                i <= count,
                count == self.voices.len(),
                forall|j: int| 0 <= j < count ==> (#[trigger] self.voices[j]).active,
                forall|j: int| 0 <= j < i ==> oldest_age <= (#[trigger] self.voices[j]).age,
                oldest_idx == 0 || oldest_idx < i,
                i > 0 ==> self.voices[oldest_idx as int].age == oldest_age,
                i == 0 ==> oldest_age == u64::MAX,
                forall|j: int| 0 <= j < oldest_idx ==> oldest_age < (#[trigger] self.voices[j]).age,
            decreases count - i,
        {
            if self.voices[i].age < oldest_age {
                oldest_age = self.voices[i].age;
                oldest_idx = i;
            }
            i += 1;
        }
        oldest_idx
    }

    /// Triggers a note: resolves its region with round robin and starts a
    /// voice on it, stealing the oldest when none is free.
    ///
    /// Returns the slot that was started and the region it plays, or `None`
    /// when no region matches or the pool is empty; then no voice changes.
    pub fn note_on(&mut self, channel: u8, note: u8, velocity: u8, voice_id: Option<i32>) -> (r:
        Option<(usize, usize)>)
        ensures
            final(self)@.follows_note_on(old(self)@, channel, note, velocity, voice_id, r),
    {
        let region_idx = match self.instrument.find_region(note, velocity, &mut self.rr_state) {
            Some(index) => index,
            None => {
                return None;
            },
        };
        let slot = self.alloc_voice();
        if slot >= self.voices.len() {
            return None;
        }
        let age = self.frame_counter;
        self.voices[slot].start(channel, note, region_idx, age);
        self.voices[slot].note_id = voice_id;
        assert(self.voices@ =~= old(self).voices@.update(
            slot as int,
            Voice { note_id: voice_id, ..Voice::started(channel, note, region_idx, age) },
        ));
        Some((slot, region_idx))
    }

    /// Offers the next event of the block to the engine while it stands at
    /// frame `sample_idx`. An event is applied exactly when it is timed for
    /// that frame, so that it takes effect before the frame is rendered.
    pub fn apply_event(&mut self, event: NoteEvent, sample_idx: u32) -> (r: EventOutcome)
        ensures
            event.timing() != sample_idx ==> r == EventOutcome::NotDue && final(self)@ == old(
                self,
            )@,
            event.timing() == sample_idx ==> match event {
                NoteEvent::NoteOn { channel, note, velocity, voice_id, .. } => {
                    &&& r is Started || r is Dropped
                    &&& final(self)@.follows_note_on(
                        old(self)@,
                        channel,
                        note,
                        velocity,
                        voice_id,
                        match r {
                            EventOutcome::Started { slot, region } => Some((slot, region)),
                            _ => None,
                        },
                    )
                },
                NoteEvent::NoteOff { channel, note, voice_id, .. } => {
                    &&& r == EventOutcome::Released
                    &&& final(self)@.follows_note_off(old(self)@, channel, note, voice_id)
                },
                NoteEvent::Other { .. } => r == EventOutcome::Ignored && final(self)@ == old(
                    self,
                )@,
            },
    {
        match event {
            NoteEvent::NoteOn { timing, channel, note, velocity, voice_id } => {
                if timing != sample_idx {
                    return EventOutcome::NotDue;
                }
                match self.note_on(channel, note, velocity, voice_id) {
                    Some((slot, region)) => EventOutcome::Started { slot, region },
                    None => EventOutcome::Dropped,
                }
            },
            NoteEvent::NoteOff { timing, channel, note, voice_id } => {
                if timing != sample_idx {
                    return EventOutcome::NotDue;
                }
                self.note_off(channel, note, voice_id);
                EventOutcome::Released
            },
            NoteEvent::Other { timing } => {
                if timing != sample_idx {
                    EventOutcome::NotDue
                } else {
                    EventOutcome::Ignored
                }
            },
        }
    }

    /// Releases every sounding voice of this channel and note; with a host
    /// voice id, only those that carry it.
    pub fn note_off(&mut self, channel: u8, note: u8, voice_id: Option<i32>)
        ensures
            final(self)@.follows_note_off(old(self)@, channel, note, voice_id),
    {
        let count: usize = self.voices.len();
        let mut i: usize = 0;
        while i < count
            invariant
                i <= count,
                count == self.voices.len(),
                count == old(self).voices.len(),
                forall|j: int|
                    0 <= j < i ==> self.voices[j] == if old(self).voices[j].hears(
                        channel,
                        note,
                        voice_id,
                    ) {
                        old(self).voices[j].released()
                    } else {
                        old(self).voices[j]
                    },
                forall|j: int| i <= j < count ==> self.voices[j] == old(self).voices[j],
                self.rr_state == old(self).rr_state,
                self.instrument == old(self).instrument,
                self.frame_counter == old(self).frame_counter,
                self.current_instrument_idx == old(self).current_instrument_idx,
            decreases count - i,
        {
            let voice = &self.voices[i];
            let same_id = match voice_id {
                None => true,
                Some(id) => match voice.note_id {
                    Some(own) => own == id,
                    None => false,
                },
            };
            if voice.active && voice.channel == channel && voice.note == note && same_id {
                self.voices[i].release();
            }
            i += 1;
        }
    }

    /// Renders one frame of the voice in `slot`.
    ///
    /// `crossed` and `frame` are as for [`Voice::render`]. Only that voice
    /// changes. A slot outside the pool holds no voice.
    pub fn render_voice(&mut self, slot: usize, crossed: bool, frame: usize) -> (r: VoiceFrame)
        ensures
            final(self)@.instrument == old(self)@.instrument,
            final(self)@.counters == old(self)@.counters,
            final(self)@.frame_counter == old(self)@.frame_counter,
            final(self)@.current_instrument_idx == old(self)@.current_instrument_idx,
            slot >= old(self)@.voices.len() ==> r == VoiceFrame::Idle && final(self)@.voices
                == old(self)@.voices,
            slot < old(self)@.voices.len() ==> {
                let before = old(self)@.voices[slot as int];
                let regions = old(self)@.instrument.regions;
                &&& final(self)@.voices == old(self)@.voices.update(
                    slot as int,
                    before.rendered(regions, crossed, frame),
                )
                &&& r == if !before.active {
                    VoiceFrame::Idle
                } else {
                    match before.reads(regions, crossed, frame) {
                        Some(at) => VoiceFrame::Sounding { frame: at as usize },
                        None => VoiceFrame::Terminated {
                            voice_id: before.note_id,
                            channel: before.channel,
                            note: before.note,
                        },
                    }
                }
            },
    {
        if slot >= self.voices.len() {
            return VoiceFrame::Idle;
        }
        if !self.voices[slot].active {
            assert(self.voices@ =~= old(self).voices@.update(slot as int, self.voices[slot as int]));
            return VoiceFrame::Idle;
        }
        match self.voices[slot].render(&self.instrument, crossed, frame) {
            Some(at) => VoiceFrame::Sounding { frame: at },
            None => VoiceFrame::Terminated {
                voice_id: self.voices[slot].note_id,
                channel: self.voices[slot].channel,
                note: self.voices[slot].note,
            },
        }
    }
}

/// How a pool changes when it is brought to `target` voices: its length
/// becomes `target`, capped at [`MAX_VOICES`]; voices that stay keep their
/// state and added ones are fresh.
pub open spec fn resized(before: Seq<Voice>, after: Seq<Voice>, target: usize) -> bool {
    &&& after.len() == if target < MAX_VOICES {
        target
    } else {
        MAX_VOICES
    }
    &&& forall|i: int|
        0 <= i < after.len() ==> #[trigger] after[i] == if i < before.len() {
            before[i]
        } else {
            Voice::fresh()
        }
}

/// One available instrument on disk.
#[derive(Clone, Debug, PartialEq, Eq)]
pub struct InstrumentSlot {
    /// Display name (e.g. file stem).
    pub name: String,
    /// Full path to the definition file.
    pub path: String,
}

/// The slot that a selection index stands for: the index clamped into the
/// catalog.
pub open spec fn slot_for_index(len: int, idx: i32) -> int {
    if idx < 0 {
        0
    } else if idx >= len {
        len - 1
    } else {
        idx as int
    }
}

/// Map an index to a human-readable instrument name: the name of the slot
/// it selects, or `None` when the catalog is empty.
pub fn instrument_name_for_index(catalog: &Vec<InstrumentSlot>, idx: i32) -> (r: String)
    ensures
        r@ == if catalog@.len() == 0 {
            "None"@
        } else {
            catalog@[slot_for_index(catalog@.len() as int, idx)].name@
        },
{
    if catalog.len() == 0 {
        return "None".to_owned();
    }
    let last: usize = catalog.len() - 1;
    let slot: usize = if idx < 0 {
        0
    } else if idx as usize > last {
        last
    } else {
        idx as usize
    };
    catalog[slot].name.clone()
}

} // verus!
