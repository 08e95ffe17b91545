//! Instrument data model: regions, the round-robin index built over them,
//! and region lookup for a played note.

use std::collections::HashMap;
use vstd::prelude::*;

verus! {

broadcast use vstd::std_specs::hash::group_hash_axioms;

/// A mapped slice of audio material.
///
/// The sample buffer itself, and the real-valued trims that go with it, are
/// kept by the owner of the audio; a region describes how that buffer is laid
/// out and when it sounds.
#[derive(Clone, Debug, PartialEq, Eq)]
pub struct Region {
    /// Number of interleaved channels (1 = mono, 2 = stereo).
    pub channels: usize,
    /// Total number of frames (samples per channel).
    pub num_frames: usize,
    /// MIDI note at which the sample plays at its recorded pitch.
    pub root_note: u8,
    /// Lowest MIDI note this region responds to.
    pub lo_note: u8,
    /// Highest MIDI note this region responds to.
    pub hi_note: u8,
    /// Lowest velocity (0-127).
    pub lo_vel: u8,
    /// Highest velocity (0-127).
    pub hi_vel: u8,
    /// Loop points, in frames.
    pub loop_start: Option<usize>,
    pub loop_end: Option<usize>,
    pub loop_enabled: bool,
    /// Regions with the same group rotate.
    pub rr_group: u32,
    /// Position within the rotation (0, 1, 2, ...).
    pub rr_seq: u32,
    /// Where the sample came from.
    pub sample_path: String,
}

/// Buffer positions of the four samples that a cubic interpolation around a
/// read position takes: the one before, the one at, and the two after.
#[derive(Clone, Copy, PartialEq, Eq, Debug)]
pub struct Taps {
    pub before: usize,
    pub at: usize,
    pub next: usize,
    pub after: usize,
}

/// What a read at a fractional position takes from the interleaved buffer.
#[derive(Clone, Copy, PartialEq, Eq, Debug)]
pub enum SampleRead {
    /// The region holds no frames.
    Silent,
    /// One channel, to be panned.
    Mono(Taps),
    /// Left and right, interpolated independently.
    Stereo(Taps, Taps),
}

/// A frame number brought into `0..num_frames` by repeating the boundary
/// frame.
pub open spec fn clamp_frame(frame: int, num_frames: int) -> int {
    if frame < 0 {
        0
    } else if frame >= num_frames {
        num_frames - 1
    } else {
        frame
    }
}

/// The taps around frame `idx` in a buffer of `num_frames` frames of
/// `stride` interleaved channels, for channel `ch`.
pub open spec fn taps_around(idx: int, num_frames: int, stride: int, ch: int) -> Taps {
    Taps {
        before: (clamp_frame(idx - 1, num_frames) * stride + ch) as usize,
        at: (clamp_frame(idx, num_frames) * stride + ch) as usize,
        next: (clamp_frame(idx + 1, num_frames) * stride + ch) as usize,
        after: (clamp_frame(idx + 2, num_frames) * stride + ch) as usize,
    }
}

impl Taps {
    /// All four positions lie below `len`.
    pub open spec fn within(self, len: int) -> bool {
        self.before < len && self.at < len && self.next < len && self.after < len
    }
}

/// Coarse four-bucket quantisation of a velocity.
pub open spec fn velocity_layer(velocity: u8) -> u8 {
    if velocity / 32 < 3 {
        velocity / 32
    } else {
        3
    }
}

/// Wraps `frame` into the half-open window `[start, end)`.
pub open spec fn wrap_frame(frame: int, start: int, end: int) -> int {
    start + (frame - start) % (end - start)
}

impl Region {
    /// The region sounds for this note and velocity: both lie within its
    /// inclusive ranges.
    pub open spec fn covers(&self, note: u8, velocity: u8) -> bool {
        &&& self.lo_note <= note <= self.hi_note
        &&& self.lo_vel <= velocity <= self.hi_vel
    }

    /// The region is filed under this key of the round-robin index.
    pub open spec fn indexed_at(&self, note: u8, layer: u8, group: u32) -> bool {
        &&& self.lo_note <= note <= self.hi_note
        &&& velocity_layer(self.lo_vel) == layer
        &&& self.rr_group == group
    }

    /// The loop window `[start, end)`, present when looping is enabled and
    /// the window is not empty.
    pub open spec fn loop_window(&self) -> Option<(usize, usize)> {
        if self.loop_enabled && self.loop_start is Some && self.loop_end is Some
            && self.loop_start->0 < self.loop_end->0 {
            Some((self.loop_start->0, self.loop_end->0))
        } else {
            None
        }
    }

    /// What the data model asks of a region.
    pub open spec fn well_formed(&self) -> bool {
        &&& self.lo_note <= self.hi_note <= 127
        &&& self.lo_vel <= self.hi_vel <= 127
        &&& (self.channels == 1 || self.channels == 2)
        &&& self.loop_enabled ==> {
            &&& self.loop_window() is Some
            &&& self.loop_end->0 <= self.num_frames
        }
    }

    /// Where a read cursor that stands at `frame` is read from on this
    /// sample, or `None` when playback has run off the end of the data and
    /// there is no loop window to return to.
    ///
    /// Past the end of the data a region with a loop window wraps into it.
    /// Before that, a voice that is still held wraps as soon as it reaches the
    /// loop end, while a releasing voice plays on towards the end of the data.
    pub open spec fn playhead(&self, frame: usize, releasing: bool) -> Option<int> {
        if frame >= self.num_frames && self.loop_window() is None {
            None
        } else {
            match self.loop_window() {
                Some((start, end)) => {
                    if frame >= self.num_frames || (!releasing && frame >= end) {
                        Some(wrap_frame(frame as int, start as int, end as int))
                    } else {
                        Some(frame as int)
                    }
                },
                None => Some(frame as int),
            }
        }
    }

    /// Whether the region is as the data model asks.
    pub fn is_well_formed(&self) -> (r: bool)
        ensures
            r == self.well_formed(),
    {
        let ranges = self.lo_note <= self.hi_note && self.hi_note <= 127
            && self.lo_vel <= self.hi_vel && self.hi_vel <= 127
            && (self.channels == 1 || self.channels == 2);
        if !ranges {
            return false;
        }
        if !self.loop_enabled {
            return true;
        }
        match (self.loop_start, self.loop_end) {
            (Some(start), Some(end)) => start < end && end <= self.num_frames,
            _ => false,
        }
    }

    /// Check if this region matches a given note, velocity, and round robin
    /// sequence.
    pub fn matches(&self, note: u8, velocity: u8, rr_seq: Option<u32>) -> (r: bool)
        ensures
            r == (self.covers(note, velocity) && (rr_seq is None || rr_seq == Some(self.rr_seq))),
    {
        let note_match = note >= self.lo_note && note <= self.hi_note;
        let vel_match = velocity >= self.lo_vel && velocity <= self.hi_vel;
        let rr_match = match rr_seq {
            Some(seq) => self.rr_seq == seq,
            None => true,
        };
        note_match && vel_match && rr_match
    }

    /// Check basic note/velocity match (ignoring round robin).
    pub fn matches_base(&self, note: u8, velocity: u8) -> (r: bool)
        ensures
            r == self.covers(note, velocity),
    {
        note >= self.lo_note && note <= self.hi_note && velocity >= self.lo_vel
            && velocity <= self.hi_vel
    }

    /// Get the buffer positions for a stereo read at frame `idx`.
    ///
    /// A one-channel region is read once and panned; any other is read as
    /// two interleaved channels.
    pub fn get_sample_stereo(&self, idx: usize) -> (r: SampleRead)
        requires
            self.channels != 1 ==> self.num_frames * 2 <= usize::MAX,
        ensures
            r == if self.num_frames == 0 {
                SampleRead::Silent
            } else if self.channels == 1 {
                SampleRead::Mono(taps_around(idx as int, self.num_frames as int, 1, 0))
            } else {
                SampleRead::Stereo(
                    taps_around(idx as int, self.num_frames as int, 2, 0),
                    taps_around(idx as int, self.num_frames as int, 2, 1),
                )
            },
            match r {
                SampleRead::Silent => true,
                SampleRead::Mono(taps) => taps.within(self.num_frames as int),
                SampleRead::Stereo(left, right) => left.within(self.num_frames * 2)
                    && right.within(self.num_frames * 2),
            },
    {
        if self.channels == 1 {
            match self.interpolate_mono(idx) {
                Some(taps) => SampleRead::Mono(taps),
                None => SampleRead::Silent,
            }
        } else {
            match (self.interpolate_channel(idx, 0), self.interpolate_channel(idx, 1)) {
                (Some(left), Some(right)) => SampleRead::Stereo(left, right),
                _ => SampleRead::Silent,
            }
        }
    }

    /// Taps of a one-channel buffer around frame `idx`; `None` when the
    /// region holds no frames.
    pub fn interpolate_mono(&self, idx: usize) -> (r: Option<Taps>)
        ensures
            r == if self.num_frames == 0 {
                None
            } else {
                Some(taps_around(idx as int, self.num_frames as int, 1, 0))
            },
            r is Some ==> r->0.within(self.num_frames as int),
    {
        if self.num_frames == 0 {
            return None;
        }
        Some(frames_around(idx, self.num_frames))
    }

    /// Taps of channel `ch` of a two-channel interleaved buffer around frame
    /// `idx`; `None` when the region holds no frames.
    pub fn interpolate_channel(&self, idx: usize, ch: usize) -> (r: Option<Taps>)
        requires
            ch < 2,
            self.num_frames * 2 <= usize::MAX,
        ensures
            r == if self.num_frames == 0 {
                None
            } else {
                Some(taps_around(idx as int, self.num_frames as int, 2, ch as int))
            },
            r is Some ==> r->0.within(self.num_frames * 2),
    {
        if self.num_frames == 0 {
            return None;
        }
        let frames = frames_around(idx, self.num_frames);
        Some(
            Taps {
                before: frames.before * 2 + ch,
                at: frames.at * 2 + ch,
                next: frames.next * 2 + ch,
                after: frames.after * 2 + ch,
            },
        )
    }

    /// Moves a read cursor that stands at `frame` to where this sample is
    /// read from; `None` when the data is exhausted and the region has no
    /// loop window.
    pub fn seek(&self, frame: usize, releasing: bool) -> (r: Option<usize>)
        ensures
            match self.playhead(frame, releasing) {
                Some(at) => r is Some && r->0 == at,
                None => r is None,
            },
            match (r, self.loop_window()) {
                (Some(at), Some((start, end))) => (frame >= self.num_frames || (!releasing
                    && frame >= end)) ==> start <= at < end,
                _ => true,
            },
    {
        let window: Option<(usize, usize)> = match (self.loop_start, self.loop_end) {
            (Some(start), Some(end)) => if self.loop_enabled && start < end {
                Some((start, end))
            } else {
                None
            },
            _ => None,
        };
        match window {
            Some((start, end)) => {
                if frame >= self.num_frames || (!releasing && frame >= end) {
                    Some(wrap(frame, start, end))
                } else {
                    Some(frame)
                }
            },
            None => if frame >= self.num_frames {
                None
            } else {
                Some(frame)
            },
        }
    }
}

/// In a well-formed region a voice never reads outside the data: wherever
/// the cursor stands, the frame it is read from lies within the region.
pub proof fn lemma_playhead_in_data(region: Region, frame: usize, releasing: bool)
    requires
        region.well_formed(),
    ensures
        match region.playhead(frame, releasing) {
            Some(at) => 0 <= at < region.num_frames,
            None => frame >= region.num_frames && !region.loop_enabled,
        },
{
    match region.loop_window() {
        Some((start, end)) => {
            vstd::arithmetic::div_mod::lemma_mod_bound(frame - start, end - start);
        },
        None => {},
    }
}

/// The four frames around `idx`, each clamped into the buffer.
fn frames_around(idx: usize, num_frames: usize) -> (r: Taps)
    requires
        num_frames > 0,
    ensures
        r == taps_around(idx as int, num_frames as int, 1, 0),
        r.within(num_frames as int),
{
    let last: usize = num_frames - 1;
    let before: usize = if idx == 0 {
        0
    } else if idx - 1 < last {
        idx - 1
    } else {
        last
    };
    let at: usize = if idx < last {
        idx
    } else {
        last
    };
    let next: usize = if idx < last {
        idx + 1
    } else {
        last
    };
    let after: usize = if idx < last && idx + 1 < last {
        idx + 2
    } else {
        last
    };
    Taps { before, at, next, after }
}

/// Exec form of [`wrap_frame`].
pub fn wrap(frame: usize, start: usize, end: usize) -> (r: usize)
    requires
        start < end,
    ensures
        r == wrap_frame(frame as int, start as int, end as int),
        start <= r < end,
{
    let len: usize = end - start;
    if frame >= start {
        let off: usize = (frame - start) % len;
        proof {
            vstd::arithmetic::div_mod::lemma_fundamental_div_mod((frame - start) as int, len as int);
        }
        start + off
    } else {
        // A cursor before the window: count back from the loop end.
        let back: usize = (start - frame) % len;
        let off: usize = if back == 0 { 0 } else { len - back };
        proof {
            lemma_wrap_before(frame as int, start as int, end as int);
        }
        start + off
    }
}

proof fn lemma_wrap_before(frame: int, start: int, end: int)
    requires
        0 <= frame < start < end,
    ensures
        (frame - start) % (end - start) == if (start - frame) % (end - start) == 0 {
            0
        } else {
            (end - start) - (start - frame) % (end - start)
        },
{
    let len = end - start;
    let d = start - frame;
    let q = d / len;
    let back = d % len;
    vstd::arithmetic::div_mod::lemma_fundamental_div_mod(d, len);
    // d == len * q + back, so -d == len * (-q) - back
    if back == 0 {
        assert(-d == len * (-q)) by (nonlinear_arith)
            requires
                d == len * q + back,
                back == 0,
        ;
        vstd::arithmetic::div_mod::lemma_fundamental_div_mod_converse(-d, len, -q, 0);
    } else {
        assert(-d == len * (-q - 1) + (len - back)) by (nonlinear_arith)
            requires
                d == len * q + back,
        ;
        vstd::arithmetic::div_mod::lemma_fundamental_div_mod_converse(
            -d,
            len,
            -q - 1,
            len - back,
        );
    }
}

/// The sequence number that a counter asks for in a rotation whose highest
/// sequence number is `max_seq`: the counter modulo `max_seq + 1`.
pub open spec fn sequence_value(counter: u32, max_seq: u32) -> u32 {
    (counter as int % (max_seq + 1)) as u32
}

/// The counter that follows `counter` in a rotation whose highest sequence
/// number is `max_seq`.
pub open spec fn next_counter(counter: u32, max_seq: u32) -> u32 {
    ((counter + 1) % (max_seq + 1)) as u32
}

/// Counters of a state in which nothing has been triggered yet.
pub open spec fn fresh_counters() -> Map<(u8, u32), u32> {
    Map::new(|k: (u8, u32)| true, |k: (u8, u32)| 0u32)
}

spec fn state_key(note: u8, group: u32) -> u64 {
    (note as u64 * 0x1_0000_0000 + group as u64) as u64
}

spec fn stored(m: Map<u64, u32>, key: u64) -> u32 {
    if m.contains_key(key) {
        m[key]
    } else {
        0
    }
}

/// Round robin state tracker: for every (note, group) a counter, from
/// which the next trigger takes its sequence number.
pub struct RoundRobinState {
    state: HashMap<u64, u32>,
}

impl View for RoundRobinState {
    type V = Map<(u8, u32), u32>;

    /// A total map: a pair that was never triggered stands at 0.
    closed spec fn view(&self) -> Map<(u8, u32), u32> {
        Map::new(
            |k: (u8, u32)| true,
            |k: (u8, u32)| stored(self.state@, state_key(k.0, k.1)),
        )
    }
}

impl Default for RoundRobinState {
    fn default() -> (r: Self)
        ensures
            r@ == fresh_counters(),
    {
        RoundRobinState::new()
    }
}

impl RoundRobinState {
    /// A state in which nothing has been triggered yet.
    pub fn new() -> (r: Self)
        ensures
            r@ == fresh_counters(),
    {
        RoundRobinState { state: HashMap::new() }
    }

    /// Get and advance the round robin counter for a note/group: the
    /// sequence number returned is the counter modulo `max_seq + 1`, and the
    /// counter moves on to the number after it, back to 0 after `max_seq`.
    pub fn next(&mut self, note: u8, group: u32, max_seq: u32) -> (seq: u32)
        ensures
            seq == sequence_value(old(self)@[(note, group)], max_seq),
            seq <= max_seq,
            final(self)@ == old(self)@.insert((note, group), next_counter(seq, max_seq)),
    {
        let key: u64 = note as u64 * 0x1_0000_0000 + group as u64;
        let current: u32 = match self.state.get(&key) {
            Some(current) => *current,
            None => 0,
        };
        let length: u64 = max_seq as u64 + 1;
        let seq: u32 = (current as u64 % length) as u32;
        let following: u64 = (seq as u64 + 1) % length;
        self.state.insert(key, following as u32);
        proof {
            assert forall|k: (u8, u32)| k != (note, group) implies state_key(k.0, k.1) != key by {}
            assert(self@ =~= old(self)@.insert((note, group), next_counter(seq, max_seq)));
        }
        seq
    }

    /// Reset all counters.
    pub fn reset(&mut self)
        ensures
            final(self)@ == fresh_counters(),
    {
        self.state.clear();
    }
}

/// Highest sequence number among the first `upto` regions that are filed
/// under `(note, layer, group)`; 0 when there is none.
pub open spec fn rr_max_upto(regions: Seq<Region>, upto: int, note: u8, layer: u8, group: u32) -> u32
    decreases upto,
{
    if upto <= 0 {
        0
    } else {
        let before = rr_max_upto(regions, upto - 1, note, layer, group);
        let region = regions[upto - 1];
        if region.indexed_at(note, layer, group) && region.rr_seq > before {
            region.rr_seq
        } else {
            before
        }
    }
}

/// The round-robin index: `(note, layer, group)` to the highest sequence
/// number filed there.
pub open spec fn rr_max_of(regions: Seq<Region>, note: u8, layer: u8, group: u32) -> u32 {
    rr_max_upto(regions, regions.len() as int, note, layer, group)
}

/// Indices, in ascending order, of those among the first `upto` regions that
/// cover the note and velocity.
pub open spec fn matching_upto(regions: Seq<Region>, upto: int, note: u8, velocity: u8) -> Seq<
    usize,
>
    decreases upto,
{
    if upto <= 0 {
        Seq::empty()
    } else {
        let before = matching_upto(regions, upto - 1, note, velocity);
        if regions[upto - 1].covers(note, velocity) {
            before.push((upto - 1) as usize)
        } else {
            before
        }
    }
}

/// Indices of all regions that cover the note and velocity, in insertion
/// order.
pub open spec fn matching(regions: Seq<Region>, note: u8, velocity: u8) -> Seq<usize> {
    matching_upto(regions, regions.len() as int, note, velocity)
}

/// The first of `candidates`, from position `from` on, that belongs to
/// `group` and carries sequence number `target`.
pub open spec fn first_in_sequence(
    regions: Seq<Region>,
    candidates: Seq<usize>,
    group: u32,
    target: u32,
    from: int,
) -> Option<usize>
    decreases candidates.len() - from,
{
    if from < 0 || from >= candidates.len() {
        None
    } else {
        let region = regions[candidates[from] as int];
        if region.rr_group == group && region.rr_seq == target {
            Some(candidates[from])
        } else {
            first_in_sequence(regions, candidates, group, target, from + 1)
        }
    }
}

/// The group whose rotation a trigger advances: that of the first matching
/// region, when more than one region matches.
pub open spec fn rotation_group(regions: Seq<Region>, note: u8, velocity: u8) -> Option<u32> {
    let found = matching(regions, note, velocity);
    if found.len() >= 2 {
        Some(regions[found[0] as int].rr_group)
    } else {
        None
    }
}

/// The velocity layer under which the rotation of a trigger is filed in the
/// index: that of the velocity floor of the first matching region.
pub open spec fn rotation_layer(regions: Seq<Region>, note: u8, velocity: u8) -> u8 {
    velocity_layer(regions[matching(regions, note, velocity)[0] as int].lo_vel)
}

/// The highest sequence number of the rotation that a trigger advances, as
/// the index holds it for the note, the rotation's layer and `group`.
pub open spec fn rotation_max(regions: Seq<Region>, note: u8, velocity: u8, group: u32) -> u32 {
    rr_max_of(regions, note, rotation_layer(regions, note, velocity), group)
}

/// The region that a trigger selects, given the round-robin counters before
/// the trigger.
///
/// No match selects nothing and a single match is taken as it is. Among
/// several, the first whose group and sequence number are the ones the
/// rotation asks for is taken, and the first match when there is no such
/// region. The sequence number asked for is the counter of the note and
/// group, modulo the length of the rotation.
pub open spec fn pick(
    regions: Seq<Region>,
    note: u8,
    velocity: u8,
    counters: Map<(u8, u32), u32>,
) -> Option<usize> {
    let found = matching(regions, note, velocity);
    match rotation_group(regions, note, velocity) {
        Some(group) => {
            let target = sequence_value(
                counters[(note, group)],
                rotation_max(regions, note, velocity, group),
            );
            match first_in_sequence(regions, found, group, target, 0) {
                Some(index) => Some(index),
                None => Some(found[0]),
            }
        },
        None => if found.len() == 0 {
            None
        } else {
            Some(found[0])
        },
    }
}

/// The round-robin counters after a trigger: the counter of the rotation
/// that was asked moves on to the sequence number after the one it gave.
pub open spec fn advance(
    regions: Seq<Region>,
    note: u8,
    velocity: u8,
    counters: Map<(u8, u32), u32>,
) -> Map<(u8, u32), u32> {
    match rotation_group(regions, note, velocity) {
        Some(group) => {
            let highest = rotation_max(regions, note, velocity, group);
            counters.insert(
                (note, group),
                next_counter(sequence_value(counters[(note, group)], highest), highest),
            )
        },
        None => counters,
    }
}

/// `matching_upto` lists exactly the covering regions among the first
/// `upto`, each once, in ascending order.
pub proof fn lemma_matching_upto(regions: Seq<Region>, upto: int, note: u8, velocity: u8)
    requires
        0 <= upto <= regions.len(),
        upto <= usize::MAX,
    ensures
        matching_upto(regions, upto, note, velocity).len() <= upto,
        forall|j: int|
            0 <= j < matching_upto(regions, upto, note, velocity).len() ==> {
                let index = #[trigger] matching_upto(regions, upto, note, velocity)[j];
                index < upto && regions[index as int].covers(note, velocity)
            },
        forall|j: int, k: int|
            0 <= j < k < matching_upto(regions, upto, note, velocity).len() ==> matching_upto(
                regions,
                upto,
                note,
                velocity,
            )[j] < matching_upto(regions, upto, note, velocity)[k],
        forall|i: int|
            0 <= i < upto && #[trigger] regions[i].covers(note, velocity) ==> matching_upto(
                regions,
                upto,
                note,
                velocity,
            ).contains(i as usize),
    decreases upto,
{
    if upto > 0 {
        lemma_matching_upto(regions, upto - 1, note, velocity);
        let before = matching_upto(regions, upto - 1, note, velocity);
        let all = matching_upto(regions, upto, note, velocity);
        assert forall|i: int| 0 <= i < upto && #[trigger] regions[i].covers(note, velocity) implies all.contains(
            i as usize,
        ) by {
            if i < upto - 1 {
                let j = choose|j: int| 0 <= j < before.len() && before[j] == i as usize;
                assert(all[j] == i as usize);
            } else {
                assert(all[all.len() - 1] == i as usize);
            }
        }
    }
}

/// The round-robin index holds the highest sequence number filed under a
/// key: no region filed there exceeds it, and it is 0 or the sequence number
/// of one of them.
pub proof fn lemma_rr_max_upto(regions: Seq<Region>, upto: int, note: u8, layer: u8, group: u32)
    requires
        0 <= upto <= regions.len(),
    ensures
        forall|i: int|
            0 <= i < upto && (#[trigger] regions[i]).indexed_at(note, layer, group)
                ==> regions[i].rr_seq <= rr_max_upto(regions, upto, note, layer, group),
        rr_max_upto(regions, upto, note, layer, group) == 0 || exists|i: int|
            0 <= i < upto && (#[trigger] regions[i]).indexed_at(note, layer, group)
                && regions[i].rr_seq == rr_max_upto(regions, upto, note, layer, group),
    decreases upto,
{
    if upto > 0 {
        lemma_rr_max_upto(regions, upto - 1, note, layer, group);
        let before = rr_max_upto(regions, upto - 1, note, layer, group);
        let now = rr_max_upto(regions, upto, note, layer, group);
        if now != 0 {
            if now == before {
                let i = choose|i: int|
                    0 <= i < upto - 1 && (#[trigger] regions[i]).indexed_at(note, layer, group)
                        && regions[i].rr_seq == before;
                assert(regions[i].indexed_at(note, layer, group) && regions[i].rr_seq == now);
            } else {
                assert(regions[upto - 1].indexed_at(note, layer, group) && regions[upto
                    - 1].rr_seq == now);
            }
        }
    }
}

spec fn index_key(note: u8, layer: u8, group: u32) -> u64 {
    (note as u64 * 0x100_0000_0000 + layer as u64 * 0x1_0000_0000 + group as u64) as u64
}

spec fn index_agrees(index: Map<u64, u32>, regions: Seq<Region>, upto: int) -> bool {
    forall|note: u8, layer: u8, group: u32|
        stored(index, #[trigger] index_key(note, layer, group)) == rr_max_upto(
            regions,
            upto,
            note,
            layer,
            group,
        )
}

/// The index while the region at `at` is being filed: done for the notes
/// below `bound`, not yet for the others.
spec fn index_filing(index: Map<u64, u32>, regions: Seq<Region>, at: int, bound: int) -> bool {
    forall|note: u8, layer: u8, group: u32|
        #![trigger index_key(note, layer, group)]
        stored(index, index_key(note, layer, group)) == if note < bound {
            rr_max_upto(regions, at + 1, note, layer, group)
        } else {
            rr_max_upto(regions, at, note, layer, group)
        }
}

/// What an instrument is: its name and its regions in insertion order.
pub struct InstrumentView {
    pub name: Seq<char>,
    pub regions: Seq<Region>,
}

/// A complete instrument: a set of regions and the round-robin index
/// derived from them. The index is built once and never changes.
pub struct Instrument {
    name: String,
    regions: Vec<Region>,
    /// Maps (note, velocity layer, group) to the highest sequence number.
    rr_max: HashMap<u64, u32>,
}

impl View for Instrument {
    type V = InstrumentView;

    closed spec fn view(&self) -> InstrumentView {
        InstrumentView { name: self.name@, regions: self.regions@ }
    }
}

impl Instrument {
    #[verifier::type_invariant]
    spec fn index_is_current(&self) -> bool {
        index_agrees(self.rr_max@, self.regions@, self.regions@.len() as int)
    }

    /// The instrument without regions, named `Empty`.
    pub fn empty() -> (r: Self)
        ensures
            r@.name == "Empty"@,
            r@.regions == Seq::<Region>::empty(),
    {
        let regions: Vec<Region> = Vec::new();
        let rr_max = Self::build_rr_map(&regions);
        Instrument { name: "Empty".to_owned(), regions, rr_max }
    }

    /// An instrument of these regions, with its round-robin index.
    pub fn new(name: String, regions: Vec<Region>) -> (r: Self)
        ensures
            r@.name == name@,
            r@.regions == regions@,
    {
        let rr_max = Self::build_rr_map(&regions);
        Instrument { name, regions, rr_max }
    }

    /// Build the round robin max sequence map.
    #[verifier::loop_isolation(false)]
    fn build_rr_map(regions: &Vec<Region>) -> (index: HashMap<u64, u32>)
        ensures
            index_agrees(index@, regions@, regions@.len() as int),
    {
        let mut index: HashMap<u64, u32> = HashMap::new();
        let mut i: usize = 0;
        while i < regions.len()
            invariant
                i <= regions.len(),
                index_agrees(index@, regions@, i as int),
            decreases regions.len() - i,
        {
            let region = &regions[i];
            let layer: u8 = if region.lo_vel / 32 < 3 {
                region.lo_vel / 32
            } else {
                3
            };
            let mut note: u16 = region.lo_note as u16;
            while note <= region.hi_note as u16
                invariant
                    i < regions.len(),
                    region == regions@[i as int],
                    layer == velocity_layer(region.lo_vel),
                    region.lo_note <= note,
                    note <= region.hi_note + 1 || note == region.lo_note,
                    index_filing(index@, regions@, i as int, note as int),
                decreases region.hi_note + 1 - note,
            {
                let key: u64 = note as u64 * 0x100_0000_0000 + layer as u64 * 0x1_0000_0000
                    + region.rr_group as u64;
                let current: u32 = match index.get(&key) {
                    Some(seq) => *seq,
                    None => 0,
                };
                let highest: u32 = if region.rr_seq > current {
                    region.rr_seq
                } else {
                    current
                };
                let ghost before = index@;
                index.insert(key, highest);
                proof {
                    assert(key == index_key(note as u8, layer, region.rr_group));
                    assert forall|n: u8, l: u8, g: u32|
                        #![trigger index_key(n, l, g)]
                        stored(index@, index_key(n, l, g)) == (if n < note + 1 {
                            rr_max_upto(regions@, i + 1, n, l, g)
                        } else {
                            rr_max_upto(regions@, i as int, n, l, g)
                        }) by {
                        if !(n == note && l == layer && g == region.rr_group) {
                            // another key: its entry is untouched
                            assert(index_key(n, l, g) != key);
                        }
                    }
                }
                note += 1;
            }
            proof {
                assert forall|n: u8, l: u8, g: u32|
                    stored(index@, #[trigger] index_key(n, l, g)) == rr_max_upto(
                        regions@,
                        i + 1,
                        n,
                        l,
                        g,
                    ) by {}
            }
            i += 1;
        }
        index
    }

    /// The instrument's display name.
    pub fn name(&self) -> (r: &String)
        ensures
            r@ == self@.name,
    {
        &self.name
    }

    /// The regions, in insertion order.
    pub fn regions(&self) -> (r: &Vec<Region>)
        ensures
            r@ == self@.regions,
    {
        &self.regions
    }

    /// Get max round robin sequence for a note/group, in the layer that
    /// `velocity` falls into. The rotation of a region is filed under the
    /// layer of its velocity floor.
    pub fn get_rr_max(&self, note: u8, velocity: u8, group: u32) -> (r: u32)
        ensures
            r == rr_max_of(self@.regions, note, velocity_layer(velocity), group),
    {
        proof {
            use_type_invariant(self);
        }
        let layer: u8 = if velocity / 32 < 3 {
            velocity / 32
        } else {
            3
        };
        let key: u64 = note as u64 * 0x100_0000_0000 + layer as u64 * 0x1_0000_0000
            + group as u64;
        proof {
            assert(key == index_key(note, layer, group));
        }
        match self.rr_max.get(&key) {
            Some(seq) => *seq,
            None => 0,
        }
    }

    /// Find the best matching region for a note/velocity, with round robin.
    #[verifier::loop_isolation(false)]
    pub fn find_region(&self, note: u8, velocity: u8, rr_state: &mut RoundRobinState) -> (r:
        Option<usize>)
        ensures
            r == pick(self@.regions, note, velocity, old(rr_state)@),
            final(rr_state)@ == advance(self@.regions, note, velocity, old(rr_state)@),
            r is Some ==> r->0 < self@.regions.len() && self@.regions[r->0 as int].covers(
                note,
                velocity,
            ),
    {
        let found = self.find_all_regions(note, velocity);
        let count: usize = self.regions.len();
        proof {
            lemma_matching_upto(self.regions@, count as int, note, velocity);
        }
        if found.len() == 0 {
            return None;
        }
        let first: usize = found[0];
        if found.len() == 1 {
            return Some(first);
        }
        let group: u32 = self.regions[first].rr_group;
        let max_seq: u32 = self.get_rr_max(note, self.regions[first].lo_vel, group);
        let target: u32 = rr_state.next(note, group, max_seq);

        let mut j: usize = 0;
        while j < found.len()
            invariant
                j <= found.len(),
                found@ == matching(self@.regions, note, velocity),
                forall|k: int| 0 <= k < found.len() ==> #[trigger] found[k] < self.regions.len(),
                first_in_sequence(self@.regions, found@, group, target, 0) == first_in_sequence(
                    self@.regions,
                    found@,
                    group,
                    target,
                    j as int,
                ),
            decreases found.len() - j,
        {
            let index: usize = found[j];
            let region = &self.regions[index];
            if region.rr_group == group && region.rr_seq == target {
                return Some(index);
            }
            j += 1;
        }
        Some(first)
    }

    /// Find all matching regions (for layering without round robin).
    pub fn find_all_regions(&self, note: u8, velocity: u8) -> (r: Vec<usize>)
        ensures
            r@ == matching(self@.regions, note, velocity),
    {
        let mut found: Vec<usize> = Vec::new();
        let mut i: usize = 0;
        while i < self.regions.len()
            invariant
                i <= self.regions.len(),
                found@ == matching_upto(self.regions@, i as int, note, velocity),
            decreases self.regions.len() - i,
        {
            if self.regions[i].matches_base(note, velocity) {
                found.push(i);
            }
            i += 1;
        }
        found
    }
}

/// An instrument as a definition file describes it.
#[derive(Clone, Debug, PartialEq, Eq)]
pub struct InstrumentDef {
    pub name: String,
    pub regions: Vec<RegionDef>,
}

/// A region as a definition file describes it. Ranges that are left out
/// default to the full range.
#[derive(Clone, Debug, PartialEq, Eq)]
pub struct RegionDef {
    pub sample: String,
    pub root: u8,
    pub lo_note: Option<u8>,
    pub hi_note: Option<u8>,
    pub lo_vel: Option<u8>,
    pub hi_vel: Option<u8>,
    pub loop_start: Option<usize>,
    pub loop_end: Option<usize>,
    pub loop_enabled: bool,
    pub rr_group: u32,
    pub rr_seq: u32,
}

/// Root note of a region that names none: middle C.
pub fn default_root() -> (r: u8)
    ensures
        r == 60,
{
    60
}

} // verus!
