//! Basic SFZ front end: the text of an instrument definition, line by line,
//! to region descriptors. Supports the common opcodes needed for most
//! instruments.
//!
//! Positions in a line are counted in characters.

use crate::loader::{AudioData, LoadError};
use crate::sample::Region;
use crate::text::{
    ascii_digit, ascii_letter, chars_of, drop_char, drop_char_in, drop_whitespace,
    drop_whitespace_in, find_char, find_in, has_prefix, has_prefix_at, is_ascii_digit,
    is_ascii_letter, is_number, is_number_text, lemma_find_char, lemma_skip_whitespace, lowercase,
    parse_signed, parse_signed_in, parse_unsigned, parse_unsigned_in, replace, replaced,
    same_text, skip_char, skip_char_in, skip_whitespace, skip_whitespace_in, starts_with,
    starts_with_at, to_lowercase, trim, trimmed,
};
use vstd::prelude::*;
use vstd::string::StrSliceExecFns;

verus! {

/// Where a `//` comment starts at or after `from`; the length of the line
/// when there is none.
pub open spec fn comment_start(s: Seq<char>, from: int) -> int
    decreases s.len() - from,
{
    if from < 0 || from + 1 >= s.len() {
        s.len() as int
    } else if s[from] == '/' && s[from + 1] == '/' {
        from
    } else {
        comment_start(s, from + 1)
    }
}

/// The line up to its `//` comment.
pub fn strip_comments(line: &str) -> (r: &str)
    ensures
        r@ == line@.subrange(0, comment_start(line@, 0)),
{
    let chars = chars_of(line);
    let len: usize = chars.len();
    let mut i: usize = 0;
    while i < len && i + 1 < len
        invariant
            i <= len,
            len == chars.len(),
            chars@ == line@,
            comment_start(line@, 0) == comment_start(line@, i as int),
        decreases len - i,
    {
        if chars[i] == '/' && chars[i + 1] == '/' {
            return line.substring_char(0, i);
        }
        i += 1;
    }
    line.substring_char(0, len)
}

/// A character that can begin an opcode name.
pub open spec fn starts_word(c: char) -> bool {
    ascii_letter(c) || c == '_'
}

/// The scan for the next opcode in `[i, to)`: the start of the first name
/// that is directly followed by `=`.
///
/// A name begins at a letter or underscore that follows anything but a name
/// character, and runs on through letters, digits and underscores.
/// `in_word` says whether the scan stands inside a name, which then began at
/// `word_start`.
pub open spec fn scan_opcode(s: Seq<char>, i: int, to: int, in_word: bool, word_start: int) -> Option<
    int,
>
    decreases to - i,
{
    if i >= to {
        None
    } else if starts_word(s[i]) {
        scan_opcode(
            s,
            i + 1,
            to,
            true,
            if in_word {
                word_start
            } else {
                i
            },
        )
    } else if s[i] == '=' && in_word {
        Some(word_start)
    } else if ascii_digit(s[i]) {
        scan_opcode(s, i + 1, to, in_word, word_start)
    } else {
        scan_opcode(s, i + 1, to, false, word_start)
    }
}

/// Position of the next opcode in `[from, to)`, or `to` when none follows.
pub open spec fn next_opcode(s: Seq<char>, from: int, to: int) -> int {
    match scan_opcode(s, from, to, false, from) {
        Some(start) => start,
        None => to,
    }
}

/// What the scan finds is the start of a name inside the scanned range,
/// unless it is the name the scan began in.
pub proof fn lemma_scan_opcode(s: Seq<char>, i: int, to: int, in_word: bool, word_start: int)
    requires
        0 <= i <= to <= s.len(),
    ensures
        match scan_opcode(s, i, to, in_word, word_start) {
            Some(start) => (in_word && start == word_start) || (i <= start < to && starts_word(
                s[start],
            )),
            None => true,
        },
    decreases to - i,
{
    if i < to {
        if starts_word(s[i]) {
            lemma_scan_opcode(
                s,
                i + 1,
                to,
                true,
                if in_word {
                    word_start
                } else {
                    i
                },
            );
        } else if s[i] == '=' && in_word {
        } else if ascii_digit(s[i]) {
            lemma_scan_opcode(s, i + 1, to, in_word, word_start);
        } else {
            lemma_scan_opcode(s, i + 1, to, false, word_start);
        }
    }
}

/// Exec form of [`scan_opcode`] from outside a name.
fn next_opcode_in(chars: &Vec<char>, from: usize, to: usize) -> (r: Option<usize>)
    requires
        from <= to <= chars.len(),
    ensures
        match scan_opcode(chars@, from as int, to as int, false, from as int) {
            Some(start) => r == Some(start as usize) && from <= start < to,
            None => r is None,
        },
{
    let mut in_word = false;
    let mut word_start: usize = from;
    let mut i: usize = from;
    proof {
        lemma_scan_opcode(chars@, from as int, to as int, false, from as int);
    }
    while i < to
        invariant
            from <= i <= to <= chars.len(),
            from <= word_start,
            in_word ==> word_start < i,
            scan_opcode(chars@, from as int, to as int, false, from as int) == scan_opcode(
                chars@,
                i as int,
                to as int,
                in_word,
                word_start as int,
            ),
        decreases to - i,
    {
        let c = chars[i];
        if is_ascii_letter(c) || c == '_' {
            if !in_word {
                word_start = i;
                in_word = true;
            }
        } else if c == '=' && in_word {
            return Some(word_start);
        } else if is_ascii_digit(c) {
        } else {
            in_word = false;
        }
        i += 1;
    }
    None
}

/// Finds where the next opcode begins: the start of the first name that is
/// directly followed by `=`.
pub fn find_next_opcode(s: &str) -> (r: Option<usize>)
    ensures
        match scan_opcode(s@, 0, s@.len() as int, false, 0) {
            Some(start) => r == Some(start as usize) && start < s@.len(),
            None => r is None,
        },
{
    let chars = chars_of(s);
    next_opcode_in(&chars, 0, chars.len())
}

/// Semitones above C of a note letter.
pub open spec fn note_base(c: char) -> Option<int> {
    if c == 'c' {
        Some(0)
    } else if c == 'd' {
        Some(2)
    } else if c == 'e' {
        Some(4)
    } else if c == 'f' {
        Some(5)
    } else if c == 'g' {
        Some(7)
    } else if c == 'a' {
        Some(9)
    } else if c == 'b' {
        Some(11)
    } else {
        None
    }
}

/// The accidental that follows a note letter: `#` or `s` raises by one
/// semitone, `b` or `f` lowers by one.
pub open spec fn accidental(low: Seq<char>) -> int {
    if low.len() > 1 && (low[1] == '#' || low[1] == 's') {
        1
    } else if low.len() > 1 && (low[1] == 'b' || low[1] == 'f') {
        -1
    } else {
        0
    }
}

/// A note name in lower case as a MIDI note: letter, optional accidental,
/// octave, with C4 = 60. `None` when it is no note name or the note lies
/// outside 0..=127.
pub open spec fn named_note(low: Seq<char>) -> Option<u8> {
    if low.len() == 0 {
        None
    } else {
        match note_base(low[0]) {
            None => None,
            Some(base) => {
                let rest = if accidental(low) == 0 {
                    1int
                } else {
                    2int
                };
                match parse_signed(low, rest, low.len() as int, -128, 127) {
                    None => None,
                    Some(octave) => {
                        let midi = (octave + 1) * 12 + base + accidental(low);
                        if 0 <= midi <= 127 {
                            Some(midi as u8)
                        } else {
                            None
                        }
                    },
                }
            },
        }
    }
}

/// A note as a MIDI note number: a number of the range of a byte, capped
/// at 127, or else a note name in any case.
pub open spec fn note_of(s: Seq<char>) -> Option<u8> {
    match parse_unsigned(s, 0, s.len() as int, 255) {
        Some(number) => Some(
            if number < 127 {
                number as u8
            } else {
                127u8
            },
        ),
        None => named_note(lowercase(s)),
    }
}

/// Parses a note given as a number or as a name (c4, c#4, db4, ...).
pub fn parse_note(s: &str) -> (r: Option<u8>)
    ensures
        r == note_of(s@),
{
    let chars = chars_of(s);
    match parse_unsigned_in(&chars, 0, chars.len(), 255) {
        Some(number) => Some(
            if number < 127 {
                number as u8
            } else {
                127
            },
        ),
        None => {
            let lower = to_lowercase(s);
            note_from_name(lower.as_str())
        },
    }
}

/// Reads a note name that is written in lower case: a letter `a` to `g`,
/// an optional accidental and the octave.
pub fn note_from_name(low: &str) -> (r: Option<u8>)
    ensures
        r == named_note(low@),
{
    let low = chars_of(low);
    if low.len() == 0 {
        return None;
    }
    let first = low[0];
    let base: i32 = if first == 'c' {
        0
    } else if first == 'd' {
        2
    } else if first == 'e' {
        4
    } else if first == 'f' {
        5
    } else if first == 'g' {
        7
    } else if first == 'a' {
        9
    } else if first == 'b' {
        11
    } else {
        return None;
    };
    let modifier: i32 = if low.len() > 1 && (low[1] == '#' || low[1] == 's') {
        1
    } else if low.len() > 1 && (low[1] == 'b' || low[1] == 'f') {
        -1
    } else {
        0
    };
    let rest: usize = if modifier == 0 {
        1
    } else {
        2
    };
    let octave: i64 = match parse_signed_in(&low, rest, low.len(), -128, 127) {
        Some(octave) => octave,
        None => {
            return None;
        },
    };
    let midi: i32 = (octave as i32 + 1) * 12 + base + modifier;
    if midi >= 0 && midi <= 127 {
        Some(midi as u8)
    } else {
        None
    }
}

/// One `name=value` pair of a line.
#[derive(Clone, Debug, PartialEq, Eq)]
pub struct Opcode {
    pub name: String,
    pub value: String,
}

/// The opcodes of a list as plain texts.
pub open spec fn opcode_texts(list: Seq<Opcode>) -> Seq<(Seq<char>, Seq<char>)> {
    list.map_values(|opcode: Opcode| (opcode.name@, opcode.value@))
}

/// First position at or after `from` where `list` holds `name`.
pub open spec fn position_of(list: Seq<(Seq<char>, Seq<char>)>, name: Seq<char>, from: int) -> Option<
    int,
>
    decreases list.len() - from,
{
    if from < 0 || from >= list.len() {
        None
    } else if list[from].0 == name {
        Some(from)
    } else {
        position_of(list, name, from + 1)
    }
}

/// The list with `name` set to `value`: a name that is already there keeps
/// its place and takes the new value, a new name goes to the end.
pub open spec fn put(list: Seq<(Seq<char>, Seq<char>)>, name: Seq<char>, value: Seq<char>) -> Seq<
    (Seq<char>, Seq<char>),
> {
    match position_of(list, name, 0) {
        Some(at) => list.update(at, (name, value)),
        None => list.push((name, value)),
    }
}

/// No name stands twice in the list.
pub open spec fn unique_names(list: Seq<(Seq<char>, Seq<char>)>) -> bool {
    forall|i: int, j: int| 0 <= i < j < list.len() ==> (#[trigger] list[i]).0 != (#[trigger] list[j]).0
}

/// What `position_of` finds holds the name, and nothing before it does;
/// where it finds nothing, the name is not in the list from `from` on.
pub proof fn lemma_position_of(list: Seq<(Seq<char>, Seq<char>)>, name: Seq<char>, from: int)
    requires
        0 <= from,
    ensures
        match position_of(list, name, from) {
            Some(at) => from <= at < list.len() && list[at].0 == name && forall|i: int|
                from <= i < at ==> (#[trigger] list[i]).0 != name,
            None => forall|i: int| from <= i < list.len() ==> (#[trigger] list[i]).0 != name,
        },
    decreases list.len() - from,
{
    if from < list.len() && list[from].0 != name {
        lemma_position_of(list, name, from + 1);
    }
}

/// Setting a name keeps every name single: the list stands for a map from
/// names to values. It holds the new value under the name, and what it held
/// under other names is as before.
pub proof fn lemma_put(list: Seq<(Seq<char>, Seq<char>)>, name: Seq<char>, value: Seq<char>)
    requires
        unique_names(list),
    ensures
        unique_names(put(list, name, value)),
        position_of(put(list, name, value), name, 0) is Some,
        put(list, name, value)[position_of(put(list, name, value), name, 0)->0].1 == value,
        forall|other: Seq<char>|
            other != name ==> #[trigger] position_of(put(list, name, value), other, 0)
                == position_of(list, other, 0),
        forall|other: Seq<char>|
            other != name && position_of(list, other, 0) is Some ==> put(
                list,
                name,
                value,
            )[#[trigger] position_of(list, other, 0)->0] == list[position_of(list, other, 0)->0],
{
    let after = put(list, name, value);
    lemma_position_of(list, name, 0);
    lemma_position_of(after, name, 0);
    match position_of(list, name, 0) {
        Some(at) => {
            assert(after[at].0 == name);
        },
        None => {
            assert(after[list.len() as int].0 == name);
        },
    }
    assert forall|other: Seq<char>| other != name implies #[trigger] position_of(after, other, 0)
        == position_of(list, other, 0) by {
        lemma_position_skips(list, after, other, 0);
    }
    assert forall|other: Seq<char>|
        other != name && position_of(list, other, 0) is Some implies after[#[trigger] position_of(
        list,
        other,
        0,
    )->0] == list[position_of(list, other, 0)->0] by {
        lemma_position_of(list, other, 0);
    }
}

/// Two lists that agree wherever they hold `name`, one of them perhaps
/// longer by an entry of another name, hold `name` at the same place.
proof fn lemma_position_skips(
    list: Seq<(Seq<char>, Seq<char>)>,
    after: Seq<(Seq<char>, Seq<char>)>,
    name: Seq<char>,
    from: int,
)
    requires
        0 <= from,
        list.len() <= after.len() <= list.len() + 1,
        forall|i: int| 0 <= i < list.len() ==> ((#[trigger] after[i]).0 == name <==> list[i].0 == name),
        after.len() > list.len() ==> after[list.len() as int].0 != name,
    ensures
        position_of(after, name, from) == position_of(list, name, from),
    decreases after.len() - from,
{
    if from < after.len() {
        if from < list.len() {
            if list[from].0 != name {
                lemma_position_skips(list, after, name, from + 1);
            }
        } else {
            lemma_position_skips(list, after, name, from + 1);
        }
    }
}

/// The opcodes collected from a line hold every name once.
pub proof fn lemma_collect_opcodes(s: Seq<char>, pos: int, found: Seq<(Seq<char>, Seq<char>)>)
    requires
        unique_names(found),
    ensures
        unique_names(collect_opcodes(s, pos, found)),
    decreases s.len() - pos,
{
    if 0 <= pos < s.len() {
        let start = skip_whitespace(s, pos, s.len() as int);
        let eq = find_char(s, '=', start, s.len() as int);
        if eq < s.len() {
            let name = lowercase(trimmed(s, start, eq));
            let value_end = next_opcode(s, eq + 1, s.len() as int);
            let value = trimmed(s, eq + 1, value_end);
            lemma_skip_whitespace(s, pos, s.len() as int);
            lemma_find_char(s, '=', start, s.len() as int);
            lemma_scan_opcode(s, eq + 1, s.len() as int, false, eq + 1);
            lemma_put(found, name, value);
            lemma_collect_opcodes(s, value_end, put(found, name, value));
        }
    }
}

/// The opcodes of a line from `pos` on, added to `found`.
///
/// An opcode is a name up to `=`, in lower case, and a value that runs to
/// where the next opcode begins or to the end of the line; both without
/// surrounding whitespace. A rest of the line without `=` is ignored.
pub open spec fn collect_opcodes(
    s: Seq<char>,
    pos: int,
    found: Seq<(Seq<char>, Seq<char>)>,
) -> Seq<(Seq<char>, Seq<char>)>
    decreases s.len() - pos,
{
    if pos < 0 || pos >= s.len() {
        found
    } else {
        let start = skip_whitespace(s, pos, s.len() as int);
        let eq = find_char(s, '=', start, s.len() as int);
        if eq >= s.len() {
            found
        } else {
            let name = lowercase(trimmed(s, start, eq));
            let value_end = next_opcode(s, eq + 1, s.len() as int);
            let value = trimmed(s, eq + 1, value_end);
            proof {
                lemma_skip_whitespace(s, pos, s.len() as int);
                lemma_find_char(s, '=', start, s.len() as int);
                lemma_scan_opcode(s, eq + 1, s.len() as int, false, eq + 1);
            }
            collect_opcodes(s, value_end, put(found, name, value))
        }
    }
}

/// The opcodes of a line, each name once, in the order in which the names
/// first appear; of a repeated name the last value counts.
pub open spec fn opcodes_of(line: Seq<char>) -> Seq<(Seq<char>, Seq<char>)> {
    collect_opcodes(line, 0, Seq::empty())
}

/// Sets `name` to `value` in the list.
fn put_opcode(list: &mut Vec<Opcode>, name: String, value: String)
    ensures
        opcode_texts(final(list)@) == put(opcode_texts(old(list)@), name@, value@),
{
    let count: usize = list.len();
    let mut i: usize = 0;
    while i < count
        invariant
            i <= count,
            count == list.len(),
            *list == *old(list),
            position_of(opcode_texts(list@), name@, 0) == position_of(
                opcode_texts(list@),
                name@,
                i as int,
            ),
        decreases count - i,
    {
        if list[i].name == name {
            list[i] = Opcode { name, value };
            assert(opcode_texts(list@) =~= put(opcode_texts(old(list)@), name@, value@));
            return ;
        }
        i += 1;
    }
    list.push(Opcode { name, value });
    assert(opcode_texts(list@) =~= put(opcode_texts(old(list)@), name@, value@));
}

/// Splits a line into its opcodes. Every name stands once in the result.
pub fn parse_opcodes(line: &str) -> (r: Vec<Opcode>)
    ensures
        opcode_texts(r@) == opcodes_of(line@),
        unique_names(opcode_texts(r@)),
{
    proof {
        lemma_collect_opcodes(line@, 0, Seq::empty());
    }
    let chars = chars_of(line);
    let len: usize = chars.len();
    let mut opcodes: Vec<Opcode> = Vec::new();
    let mut pos: usize = 0;
    assert(opcode_texts(opcodes@) =~= Seq::empty());
    while pos < len
        invariant
            pos <= len,
            len == chars.len(),
            chars@ == line@,
            opcodes_of(line@) == collect_opcodes(line@, pos as int, opcode_texts(opcodes@)),
            unique_names(opcodes_of(line@)),
        decreases len - pos,
    {
        let start = skip_whitespace_in(&chars, pos, len);
        let eq = find_in(&chars, '=', start, len);
        if eq >= len {
            return opcodes;
        }
        let name_start = skip_whitespace_in(&chars, start, eq);
        let value_end: usize = match next_opcode_in(&chars, eq + 1, len) {
            Some(next) => next,
            None => len,
        };
        let value_start = skip_whitespace_in(&chars, eq + 1, value_end);
        let value_stop = drop_whitespace_in(&chars, value_start, value_end);
        let name_stop = drop_whitespace_in(&chars, name_start, eq);
        let name = to_lowercase(line.substring_char(name_start, name_stop));
        let value = line.substring_char(value_start, value_stop).to_owned();
        put_opcode(&mut opcodes, name, value);
        pos = value_end;
    }
    opcodes
}

/// Accumulated opcode values of a section. `T` is the type of a text:
/// `String` in the parser, `Seq<char>` in its contracts.
///
/// The real-valued opcodes `tune`, `volume` and `pan` are kept as the text
/// that writes the number, and only when it writes one.
#[derive(Clone, Debug, PartialEq, Eq)]
pub struct OpcodeSet<T> {
    // Sample
    pub sample: Option<T>,
    pub offset: Option<usize>,
    pub end: Option<usize>,
    // Key mapping
    pub lokey: Option<u8>,
    pub hikey: Option<u8>,
    pub pitch_keycenter: Option<u8>,
    /// Sets all three above.
    pub key: Option<u8>,
    // Velocity mapping
    pub lovel: Option<u8>,
    pub hivel: Option<u8>,
    // Loop
    pub loop_mode: Option<T>,
    pub loop_start: Option<usize>,
    pub loop_end: Option<usize>,
    // Tuning/volume
    pub tune: Option<T>,
    pub volume: Option<T>,
    pub pan: Option<T>,
    // Round robin
    pub seq_length: Option<u32>,
    pub seq_position: Option<u32>,
    // Voice groups (basic)
    pub group: Option<u32>,
}

/// The text of an optional string.
pub open spec fn text_of(text: Option<String>) -> Option<Seq<char>> {
    match text {
        Some(text) => Some(text@),
        None => None,
    }
}

/// `new` where it is given, else `old`.
pub open spec fn prefer<T>(new: Option<T>, old: Option<T>) -> Option<T> {
    if new is Some {
        new
    } else {
        old
    }
}

/// An opcode value read as a number of the given unsigned range.
pub open spec fn number_of(value: Seq<char>, max: int) -> Option<int> {
    parse_unsigned(value, 0, value.len() as int, max)
}

/// An opcode value read as a frame count or position.
pub open spec fn usize_of(value: Seq<char>) -> Option<usize> {
    match number_of(value, usize::MAX as int) {
        Some(number) => Some(number as usize),
        None => None,
    }
}

/// An opcode value read as a group or sequence number.
pub open spec fn u32_of(value: Seq<char>) -> Option<u32> {
    match number_of(value, u32::MAX as int) {
        Some(number) => Some(number as u32),
        None => None,
    }
}

/// An opcode value read as a velocity.
pub open spec fn u8_of(value: Seq<char>) -> Option<u8> {
    match number_of(value, u8::MAX as int) {
        Some(number) => Some(number as u8),
        None => None,
    }
}

/// An opcode value kept as text when it writes a real number.
pub open spec fn real_of(value: Seq<char>) -> Option<Seq<char>> {
    if is_number(value) {
        Some(value)
    } else {
        None
    }
}

impl View for OpcodeSet<String> {
    type V = OpcodeSet<Seq<char>>;

    open spec fn view(&self) -> OpcodeSet<Seq<char>> {
        OpcodeSet {
            sample: text_of(self.sample),
            offset: self.offset,
            end: self.end,
            lokey: self.lokey,
            hikey: self.hikey,
            pitch_keycenter: self.pitch_keycenter,
            key: self.key,
            lovel: self.lovel,
            hivel: self.hivel,
            loop_mode: text_of(self.loop_mode),
            loop_start: self.loop_start,
            loop_end: self.loop_end,
            tune: text_of(self.tune),
            volume: text_of(self.volume),
            pan: text_of(self.pan),
            seq_length: self.seq_length,
            seq_position: self.seq_position,
            group: self.group,
        }
    }
}

impl OpcodeSet<Seq<char>> {
    /// No opcode given.
    pub open spec fn empty() -> Self {
        OpcodeSet {
            sample: None,
            offset: None,
            end: None,
            lokey: None,
            hikey: None,
            pitch_keycenter: None,
            key: None,
            lovel: None,
            hivel: None,
            loop_mode: None,
            loop_start: None,
            loop_end: None,
            tune: None,
            volume: None,
            pan: None,
            seq_length: None,
            seq_position: None,
            group: None,
        }
    }

    /// `self` overlaid with `other`: every opcode that `other` gives
    /// replaces the one of `self`.
    pub open spec fn merged(self, other: Self) -> Self {
        OpcodeSet {
            sample: prefer(other.sample, self.sample),
            offset: prefer(other.offset, self.offset),
            end: prefer(other.end, self.end),
            lokey: prefer(other.lokey, self.lokey),
            hikey: prefer(other.hikey, self.hikey),
            pitch_keycenter: prefer(other.pitch_keycenter, self.pitch_keycenter),
            key: prefer(other.key, self.key),
            lovel: prefer(other.lovel, self.lovel),
            hivel: prefer(other.hivel, self.hivel),
            loop_mode: prefer(other.loop_mode, self.loop_mode),
            loop_start: prefer(other.loop_start, self.loop_start),
            loop_end: prefer(other.loop_end, self.loop_end),
            tune: prefer(other.tune, self.tune),
            volume: prefer(other.volume, self.volume),
            pan: prefer(other.pan, self.pan),
            seq_length: prefer(other.seq_length, self.seq_length),
            seq_position: prefer(other.seq_position, self.seq_position),
            group: prefer(other.group, self.group),
        }
    }

    /// `self` after the opcode `name=value`. A value that cannot be read
    /// clears its opcode, except for `key`, which is then ignored; unknown
    /// names are ignored.
    pub open spec fn with_opcode(self, name: Seq<char>, value: Seq<char>) -> Self {
        if name == "sample"@ {
            OpcodeSet { sample: Some(value), ..self }
        } else if name == "offset"@ {
            OpcodeSet { offset: usize_of(value), ..self }
        } else if name == "end"@ {
            OpcodeSet { end: usize_of(value), ..self }
        } else if name == "key"@ {
            match note_of(value) {
                Some(note) => OpcodeSet {
                    key: Some(note),
                    lokey: Some(note),
                    hikey: Some(note),
                    pitch_keycenter: Some(note),
                    ..self
                },
                None => self,
            }
        } else if name == "lokey"@ {
            OpcodeSet { lokey: note_of(value), ..self }
        } else if name == "hikey"@ {
            OpcodeSet { hikey: note_of(value), ..self }
        } else if name == "pitch_keycenter"@ {
            OpcodeSet { pitch_keycenter: note_of(value), ..self }
        } else if name == "lovel"@ {
            OpcodeSet { lovel: u8_of(value), ..self }
        } else if name == "hivel"@ {
            OpcodeSet { hivel: u8_of(value), ..self }
        } else if name == "loop_mode"@ {
            OpcodeSet { loop_mode: Some(value), ..self }
        } else if name == "loop_start"@ {
            OpcodeSet { loop_start: usize_of(value), ..self }
        } else if name == "loop_end"@ {
            OpcodeSet { loop_end: usize_of(value), ..self }
        } else if name == "tune"@ {
            OpcodeSet { tune: real_of(value), ..self }
        } else if name == "volume"@ {
            OpcodeSet { volume: real_of(value), ..self }
        } else if name == "pan"@ {
            OpcodeSet { pan: real_of(value), ..self }
        } else if name == "seq_length"@ {
            OpcodeSet { seq_length: u32_of(value), ..self }
        } else if name == "seq_position"@ {
            OpcodeSet { seq_position: u32_of(value), ..self }
        } else if name == "group"@ {
            OpcodeSet { group: u32_of(value), ..self }
        } else {
            self
        }
    }

    /// `self` after the first `upto` opcodes of `list`, in order.
    pub open spec fn with_opcodes(self, list: Seq<(Seq<char>, Seq<char>)>, upto: int) -> Self
        decreases upto,
    {
        if upto <= 0 {
            self
        } else {
            self.with_opcodes(list, upto - 1).with_opcode(list[upto - 1].0, list[upto - 1].1)
        }
    }
}

/// Exec form of [`prefer`].
fn overlay<T: Copy>(new: Option<T>, old: Option<T>) -> (r: Option<T>)
    ensures
        r == prefer(new, old),
{
    if new.is_some() {
        new
    } else {
        old
    }
}

/// A copy of an optional text.
fn copy_text(text: &Option<String>) -> (r: Option<String>)
    ensures
        r == *text,
{
    match text {
        Some(text) => Some(text.clone()),
        None => None,
    }
}

fn parse_usize(value: &str) -> (r: Option<usize>)
    ensures
        r == usize_of(value@),
{
    let chars = chars_of(value);
    match parse_unsigned_in(&chars, 0, chars.len(), usize::MAX as u64) {
        Some(number) => Some(number as usize),
        None => None,
    }
}

fn parse_u32(value: &str) -> (r: Option<u32>)
    ensures
        r == u32_of(value@),
{
    let chars = chars_of(value);
    match parse_unsigned_in(&chars, 0, chars.len(), u32::MAX as u64) {
        Some(number) => Some(number as u32),
        None => None,
    }
}

fn parse_u8(value: &str) -> (r: Option<u8>)
    ensures
        r == u8_of(value@),
{
    let chars = chars_of(value);
    match parse_unsigned_in(&chars, 0, chars.len(), u8::MAX as u64) {
        Some(number) => Some(number as u8),
        None => None,
    }
}

fn parse_real(value: &String) -> (r: Option<String>)
    ensures
        text_of(r) == real_of(value@),
{
    if is_number_text(value.as_str()) {
        Some(value.clone())
    } else {
        None
    }
}

impl OpcodeSet<String> {
    /// A set in which no opcode is given.
    pub fn new() -> (r: Self)
        ensures
            r@ == OpcodeSet::<Seq<char>>::empty(),
    {
        OpcodeSet {
            sample: None,
            offset: None,
            end: None,
            lokey: None,
            hikey: None,
            pitch_keycenter: None,
            key: None,
            lovel: None,
            hivel: None,
            loop_mode: None,
            loop_start: None,
            loop_end: None,
            tune: None,
            volume: None,
            pan: None,
            seq_length: None,
            seq_position: None,
            group: None,
        }
    }

    /// A copy of the set.
    pub fn duplicate(&self) -> (r: Self)
        ensures
            r == *self,
    {
        OpcodeSet {
            sample: copy_text(&self.sample),
            offset: self.offset,
            end: self.end,
            lokey: self.lokey,
            hikey: self.hikey,
            pitch_keycenter: self.pitch_keycenter,
            key: self.key,
            lovel: self.lovel,
            hivel: self.hivel,
            loop_mode: copy_text(&self.loop_mode),
            loop_start: self.loop_start,
            loop_end: self.loop_end,
            tune: copy_text(&self.tune),
            volume: copy_text(&self.volume),
            pan: copy_text(&self.pan),
            seq_length: self.seq_length,
            seq_position: self.seq_position,
            group: self.group,
        }
    }

    /// Overlays `other` on this set.
    pub fn merge(&mut self, other: &Self)
        ensures
            final(self)@ == old(self)@.merged(other@),
    {
        if other.sample.is_some() {
            self.sample = copy_text(&other.sample);
        }
        self.offset = overlay(other.offset, self.offset);
        self.end = overlay(other.end, self.end);
        self.lokey = overlay(other.lokey, self.lokey);
        self.hikey = overlay(other.hikey, self.hikey);
        self.pitch_keycenter = overlay(other.pitch_keycenter, self.pitch_keycenter);
        self.key = overlay(other.key, self.key);
        self.lovel = overlay(other.lovel, self.lovel);
        self.hivel = overlay(other.hivel, self.hivel);
        if other.loop_mode.is_some() {
            self.loop_mode = copy_text(&other.loop_mode);
        }
        self.loop_start = overlay(other.loop_start, self.loop_start);
        self.loop_end = overlay(other.loop_end, self.loop_end);
        if other.tune.is_some() {
            self.tune = copy_text(&other.tune);
        }
        if other.volume.is_some() {
            self.volume = copy_text(&other.volume);
        }
        if other.pan.is_some() {
            self.pan = copy_text(&other.pan);
        }
        self.seq_length = overlay(other.seq_length, self.seq_length);
        self.seq_position = overlay(other.seq_position, self.seq_position);
        self.group = overlay(other.group, self.group);
    }

    /// Applies one opcode.
    fn apply(&mut self, opcode: &Opcode)
        ensures
            final(self)@ == old(self)@.with_opcode(opcode.name@, opcode.value@),
    {
        let name = opcode.name.as_str();
        let value = opcode.value.as_str();
        if same_text(name, "sample") {
            self.sample = Some(opcode.value.clone());
        } else if same_text(name, "offset") {
            self.offset = parse_usize(value);
        } else if same_text(name, "end") {
            self.end = parse_usize(value);
        } else if same_text(name, "key") {
            match parse_note(value) {
                Some(note) => {
                    self.key = Some(note);
                    self.lokey = Some(note);
                    self.hikey = Some(note);
                    self.pitch_keycenter = Some(note);
                },
                None => {},
            }
        } else if same_text(name, "lokey") {
            self.lokey = parse_note(value);
        } else if same_text(name, "hikey") {
            self.hikey = parse_note(value);
        } else if same_text(name, "pitch_keycenter") {
            self.pitch_keycenter = parse_note(value);
        } else if same_text(name, "lovel") {
            self.lovel = parse_u8(value);
        } else if same_text(name, "hivel") {
            self.hivel = parse_u8(value);
        } else if same_text(name, "loop_mode") {
            self.loop_mode = Some(opcode.value.clone());
        } else if same_text(name, "loop_start") {
            self.loop_start = parse_usize(value);
        } else if same_text(name, "loop_end") {
            self.loop_end = parse_usize(value);
        } else if same_text(name, "tune") {
            self.tune = parse_real(&opcode.value);
        } else if same_text(name, "volume") {
            self.volume = parse_real(&opcode.value);
        } else if same_text(name, "pan") {
            self.pan = parse_real(&opcode.value);
        } else if same_text(name, "seq_length") {
            self.seq_length = parse_u32(value);
        } else if same_text(name, "seq_position") {
            self.seq_position = parse_u32(value);
        } else if same_text(name, "group") {
            self.group = parse_u32(value);
        }
    }
}

/// Applies the opcodes of a line to a section's set, in the order of the
/// list.
pub fn apply_opcodes(ops: &mut OpcodeSet<String>, parsed: &Vec<Opcode>)
    ensures
        final(ops)@ == old(ops)@.with_opcodes(opcode_texts(parsed@), parsed@.len() as int),
{
    let count: usize = parsed.len();
    let mut i: usize = 0;
    while i < count
        invariant
            i <= count,
            count == parsed.len(),
            ops@ == old(ops)@.with_opcodes(opcode_texts(parsed@), i as int),
        decreases count - i,
    {
        ops.apply(&parsed[i]);
        i += 1;
    }
}

/// Whether a loop mode lets the region loop.
pub open spec fn loops(mode: Option<Seq<char>>) -> bool {
    mode == Some("loop_continuous"@) || mode == Some("loop_sustain"@)
}

/// The region that the opcodes of a `<region>` and its decoded sample make.
/// Opcodes that are not given take their defaults: root note 60, the full
/// note and velocity range, group 0, first place in the rotation.
pub open spec fn region_from(ops: OpcodeSet<Seq<char>>, sample_path: String, audio: AudioData) -> Region {
    Region {
        channels: audio.channels,
        num_frames: audio.num_frames,
        root_note: prefer(ops.pitch_keycenter, ops.key).unwrap_or(60),
        lo_note: ops.lokey.unwrap_or(0),
        hi_note: ops.hikey.unwrap_or(127),
        lo_vel: ops.lovel.unwrap_or(0),
        hi_vel: ops.hivel.unwrap_or(127),
        loop_start: ops.loop_start,
        loop_end: ops.loop_end,
        loop_enabled: loops(ops.loop_mode),
        rr_group: ops.group.unwrap_or(0),
        rr_seq: match ops.seq_position {
            Some(position) => if position > 0 {
                (position - 1) as u32
            } else {
                0
            },
            None => 0,
        },
        sample_path,
    }
}

/// Builds the region of a `<region>` whose sample was decoded.
pub fn build_region(ops: &OpcodeSet<String>, sample_path: String, audio: &AudioData) -> (r: Region)
    ensures
        r == region_from(ops@, sample_path, *audio),
{
    let loop_enabled = match &ops.loop_mode {
        Some(mode) => same_text(mode.as_str(), "loop_continuous") || same_text(
            mode.as_str(),
            "loop_sustain",
        ),
        None => false,
    };
    let root_note: u8 = match ops.pitch_keycenter {
        Some(note) => note,
        None => match ops.key {
            Some(note) => note,
            None => 60,
        },
    };
    Region {
        channels: audio.channels,
        num_frames: audio.num_frames,
        root_note,
        lo_note: match ops.lokey {
            Some(note) => note,
            None => 0,
        },
        hi_note: match ops.hikey {
            Some(note) => note,
            None => 127,
        },
        lo_vel: match ops.lovel {
            Some(velocity) => velocity,
            None => 0,
        },
        hi_vel: match ops.hivel {
            Some(velocity) => velocity,
            None => 127,
        },
        loop_start: ops.loop_start,
        loop_end: ops.loop_end,
        loop_enabled,
        rr_group: match ops.group {
            Some(group) => group,
            None => 0,
        },
        rr_seq: match ops.seq_position {
            Some(position) => if position > 0 {
                position - 1
            } else {
                0
            },
            None => 0,
        },
        sample_path,
    }
}

/// SFZ section types.
#[derive(Clone, Copy, PartialEq, Eq, Debug, Structural)]
pub enum Section {
    /// Before the first header, or under a header that is not followed.
    Outside,
    Control,
    Global,
    Master,
    Group,
    Region,
}

/// Deepest nesting of included files that is followed.
pub const MAX_INCLUDE_DEPTH: usize = 10;

/// A `<region>` that is complete: its opcodes, inherited ones included, and
/// the sample directory that was in force when it ended.
#[derive(Clone, Debug, PartialEq, Eq)]
pub struct RegionRequest {
    pub opcodes: OpcodeSet<String>,
    pub default_path: String,
}

impl View for RegionRequest {
    type V = (OpcodeSet<Seq<char>>, Seq<char>);

    open spec fn view(&self) -> (OpcodeSet<Seq<char>>, Seq<char>) {
        (self.opcodes@, self.default_path@)
    }
}

/// Where the sample of a region lies, relative to the definition's
/// directory: in `directory`, which may be empty, the file `file`. Both are
/// written with `/` between their parts.
#[derive(Clone, Debug, PartialEq, Eq)]
pub struct SampleLocation {
    pub directory: String,
    pub file: String,
}

/// A path with every backslash turned into a slash.
pub open spec fn with_slashes(path: Seq<char>) -> Seq<char> {
    replaced(path, "\\"@, "/"@)
}

impl RegionRequest {
    /// Where the region's sample lies; `None` when the region names no
    /// sample.
    pub fn sample_location(&self) -> (r: Option<SampleLocation>)
        ensures
            match r {
                Some(location) => self@.0.sample is Some && location.file@ == with_slashes(
                    self@.0.sample->0,
                ) && location.directory@ == with_slashes(self@.1),
                None => self@.0.sample is None,
            },
    {
        match &self.opcodes.sample {
            Some(sample) => Some(
                SampleLocation {
                    directory: replace(self.default_path.as_str(), "\\", "/"),
                    file: replace(sample.as_str(), "\\", "/"),
                },
            ),
            None => None,
        }
    }
}

/// What a line asks of the one who feeds the parser.
#[derive(Clone, Debug, PartialEq, Eq)]
pub enum LineOutcome {
    /// Nothing: the line was taken in.
    Parsed,
    /// The named file, relative to the definition's directory, is to be
    /// parsed here, if it exists.
    Include(String),
}

/// The parser's state as plain values.
pub struct SfzParserView {
    /// `#define`d names and their values, in the order of definition.
    pub defines: Seq<(Seq<char>, Seq<char>)>,
    pub default_path: Seq<char>,
    pub global_opcodes: OpcodeSet<Seq<char>>,
    pub master_opcodes: OpcodeSet<Seq<char>>,
    pub group_opcodes: OpcodeSet<Seq<char>>,
    pub current_section: Section,
    pub pending_region: Option<OpcodeSet<Seq<char>>>,
    pub finished: Seq<(OpcodeSet<Seq<char>>, Seq<char>)>,
    pub include_depth: usize,
}

/// Line by line parser of an SFZ definition. Opcodes are inherited from
/// `<global>` through `<master>` and `<group>` down to `<region>`.
#[derive(Clone, Debug, PartialEq, Eq)]
pub struct SfzParser {
    pub defines: Vec<Opcode>,
    pub default_path: String,
    pub global_opcodes: OpcodeSet<String>,
    pub master_opcodes: OpcodeSet<String>,
    pub group_opcodes: OpcodeSet<String>,
    pub current_section: Section,
    pub pending_region: Option<OpcodeSet<String>>,
    /// Regions that are complete and wait for their samples.
    pub finished: Vec<RegionRequest>,
    pub include_depth: usize,
}

/// The opcodes of an optional set as plain values.
pub open spec fn set_of(ops: Option<OpcodeSet<String>>) -> Option<OpcodeSet<Seq<char>>> {
    match ops {
        Some(ops) => Some(ops@),
        None => None,
    }
}

impl View for SfzParser {
    type V = SfzParserView;

    open spec fn view(&self) -> SfzParserView {
        SfzParserView {
            defines: opcode_texts(self.defines@),
            default_path: self.default_path@,
            global_opcodes: self.global_opcodes@,
            master_opcodes: self.master_opcodes@,
            group_opcodes: self.group_opcodes@,
            current_section: self.current_section,
            pending_region: set_of(self.pending_region),
            finished: self.finished@.map_values(|request: RegionRequest| request@),
            include_depth: self.include_depth,
        }
    }
}

/// A line without its comment and surrounding whitespace.
pub open spec fn cleaned(line: Seq<char>) -> Seq<char> {
    let bare = line.subrange(0, comment_start(line, 0));
    trimmed(bare, 0, bare.len() as int)
}

/// The text with the defines replaced, one after the other in the order of
/// definition, the first `upto` of them.
pub open spec fn expanded(defines: Seq<(Seq<char>, Seq<char>)>, text: Seq<char>, upto: int) -> Seq<
    char,
>
    decreases upto,
{
    if upto <= 0 {
        text
    } else {
        replaced(expanded(defines, text, upto - 1), defines[upto - 1].0, defines[upto - 1].1)
    }
}

/// Position after every repetition of `prefix` that stands at `from`.
pub open spec fn skip_prefixes(s: Seq<char>, prefix: Seq<char>, from: int) -> int
    decreases s.len() - from,
{
    if prefix.len() > 0 && has_prefix_at(s, prefix, from) {
        skip_prefixes(s, prefix, from + prefix.len())
    } else {
        from
    }
}

/// The file that an `#include` line names: what follows the directive,
/// without surrounding whitespace and quotes.
pub open spec fn include_target(text: Seq<char>) -> Seq<char> {
    let len = text.len() as int;
    let from = skip_prefixes(text, "#include"@, 0);
    let start = skip_whitespace(text, from, len);
    let end = drop_whitespace(text, start, len);
    let start2 = skip_char(text, '"', start, end);
    let end2 = drop_char(text, '"', start2, end);
    let start3 = skip_char(text, '\'', start2, end2);
    let end3 = drop_char(text, '\'', start3, end2);
    text.subrange(start3, end3)
}

/// The section that a header name opens.
pub open spec fn section_named(name: Seq<char>) -> Section {
    if name == "control"@ {
        Section::Control
    } else if name == "global"@ {
        Section::Global
    } else if name == "master"@ {
        Section::Master
    } else if name == "group"@ {
        Section::Group
    } else if name == "region"@ {
        Section::Region
    } else {
        Section::Outside
    }
}

/// The file that a line asks to include, if it is an `#include` line.
pub open spec fn include_of(line: Seq<char>) -> Option<Seq<char>> {
    let text = cleaned(line);
    if text.len() > 0 && !has_prefix(text, "#define"@) && has_prefix(text, "#include"@) {
        Some(include_target(text))
    } else {
        None
    }
}

impl SfzParserView {
    /// A parser that has seen nothing.
    pub open spec fn start() -> Self {
        SfzParserView {
            defines: Seq::empty(),
            default_path: Seq::empty(),
            global_opcodes: OpcodeSet::empty(),
            master_opcodes: OpcodeSet::empty(),
            group_opcodes: OpcodeSet::empty(),
            current_section: Section::Outside,
            pending_region: None,
            finished: Seq::empty(),
            include_depth: 0,
        }
    }

    /// A pending region is complete: it joins the finished ones, together
    /// with the sample directory in force.
    pub open spec fn finalized(self) -> Self {
        match self.pending_region {
            Some(ops) => SfzParserView {
                finished: self.finished.push((ops, self.default_path)),
                pending_region: None,
                ..self
            },
            None => self,
        }
    }

    /// A header opens a section. `<master>` starts over from the global
    /// opcodes, `<group>` from global and master, and `<region>` begins a
    /// region that inherits from all three. Other headers open nothing.
    pub open spec fn opened(self, name: Seq<char>) -> Self {
        let section = section_named(name);
        let inherited = OpcodeSet::empty().merged(self.global_opcodes);
        match section {
            Section::Master => SfzParserView {
                master_opcodes: inherited,
                current_section: section,
                ..self
            },
            Section::Group => SfzParserView {
                group_opcodes: inherited.merged(self.master_opcodes),
                current_section: section,
                ..self
            },
            Section::Region => SfzParserView {
                pending_region: Some(
                    inherited.merged(self.master_opcodes).merged(self.group_opcodes),
                ),
                current_section: section,
                ..self
            },
            _ => SfzParserView { current_section: section, ..self },
        }
    }

    /// The opcodes of `text` go to the section that is open.
    pub open spec fn applied(self, text: Seq<char>) -> Self {
        let opcodes = opcodes_of(text);
        let count = opcodes.len() as int;
        match self.current_section {
            Section::Control => match position_of(opcodes, "default_path"@, 0) {
                Some(at) => SfzParserView { default_path: opcodes[at].1, ..self },
                None => self,
            },
            Section::Global => SfzParserView {
                global_opcodes: self.global_opcodes.with_opcodes(opcodes, count),
                ..self
            },
            Section::Master => SfzParserView {
                master_opcodes: self.master_opcodes.with_opcodes(opcodes, count),
                ..self
            },
            Section::Group => SfzParserView {
                group_opcodes: self.group_opcodes.with_opcodes(opcodes, count),
                ..self
            },
            Section::Region => match self.pending_region {
                Some(ops) => SfzParserView {
                    pending_region: Some(ops.with_opcodes(opcodes, count)),
                    ..self
                },
                None => self,
            },
            Section::Outside => self,
        }
    }

    /// A `#define` line: the word after the first space is the name, what
    /// follows the next space is its value. A line without both changes
    /// nothing.
    pub open spec fn defined(self, text: Seq<char>) -> Self {
        let len = text.len() as int;
        let first = find_char(text, ' ', 0, len);
        let second = find_char(text, ' ', first + 1, len);
        if first < len && second < len {
            SfzParserView {
                defines: put(
                    self.defines,
                    text.subrange(first + 1, second),
                    text.subrange(second + 1, len),
                ),
                ..self
            }
        } else {
            self
        }
    }

    /// A line that is neither empty nor a directive, defines expanded: a
    /// header, with or without opcodes behind it, or opcodes alone.
    ///
    /// Any `<` ends a pending region. A header is `<`, a name and `>`;
    /// where `>` is missing or stands before `<`, the line holds opcodes only.
    pub open spec fn after_body(self, body: Seq<char>) -> Self {
        let len = body.len() as int;
        let lt = find_char(body, '<', 0, len);
        let gt = find_char(body, '>', 0, len);
        if lt >= len {
            self.applied(body)
        } else if gt < len && lt < gt {
            let opened = self.finalized().opened(lowercase(body.subrange(lt + 1, gt)));
            let rest = trimmed(body, gt + 1, len);
            if rest.len() == 0 {
                opened
            } else {
                opened.applied(rest)
            }
        } else {
            self.finalized().applied(body)
        }
    }

    /// The state after a line of the definition.
    pub open spec fn after_line(self, line: Seq<char>) -> Self {
        let text = cleaned(line);
        if text.len() == 0 {
            self
        } else if has_prefix(text, "#define"@) {
            self.defined(text)
        } else if has_prefix(text, "#include"@) {
            self
        } else {
            let full = expanded(self.defines, text, self.defines.len() as int);
            self.after_body(trimmed(full, 0, full.len() as int))
        }
    }
}

/// A line keeps every defined name single: the defines stand for a map
/// from names to values.
pub proof fn lemma_defines_stay_unique(state: SfzParserView, line: Seq<char>)
    requires
        unique_names(state.defines),
    ensures
        unique_names(state.after_line(line).defines),
{
    let text = cleaned(line);
    if text.len() != 0 && has_prefix(text, "#define"@) {
        let len = text.len() as int;
        let first = find_char(text, ' ', 0, len);
        let second = find_char(text, ' ', first + 1, len);
        lemma_put(state.defines, text.subrange(first + 1, second), text.subrange(second + 1, len));
    }
}

/// Position in `list` of the opcode `name`.
fn lookup(list: &Vec<Opcode>, name: &str) -> (r: Option<usize>)
    ensures
        match position_of(opcode_texts(list@), name@, 0) {
            Some(at) => r == Some(at as usize) && 0 <= at < list.len(),
            None => r is None,
        },
{
    let count: usize = list.len();
    let mut i: usize = 0;
    while i < count
        invariant
            i <= count,
            count == list.len(),
            position_of(opcode_texts(list@), name@, 0) == position_of(
                opcode_texts(list@),
                name@,
                i as int,
            ),
        decreases count - i,
    {
        if same_text(list[i].name.as_str(), name) {
            return Some(i);
        }
        i += 1;
    }
    None
}

impl SfzParser {
    /// A parser that has seen nothing.
    pub fn new() -> (r: Self)
        ensures
            r@ == SfzParserView::start(),
    {
        let parser = SfzParser {
            defines: Vec::new(),
            default_path: String::new(),
            global_opcodes: OpcodeSet::new(),
            master_opcodes: OpcodeSet::new(),
            group_opcodes: OpcodeSet::new(),
            current_section: Section::Outside,
            pending_region: None,
            finished: Vec::new(),
            include_depth: 0,
        };
        assert(parser@.defines =~= Seq::empty());
        assert(parser@.finished =~= Seq::empty());
        parser
    }

    /// Enters a definition file, the first or an included one. Fails when
    /// more than [`MAX_INCLUDE_DEPTH`] files are open already.
    pub fn enter_file(&mut self) -> (r: Result<(), LoadError>)
        ensures
            match r {
                Ok(_) => old(self).include_depth <= MAX_INCLUDE_DEPTH && final(self)@
                    == (SfzParserView {
                    include_depth: (old(self).include_depth + 1) as usize,
                    ..old(self)@
                }),
                Err(error) => old(self).include_depth > MAX_INCLUDE_DEPTH && error
                    == LoadError::IncludeDepthExceeded && *final(self) == *old(self),
            },
    {
        if self.include_depth > MAX_INCLUDE_DEPTH {
            return Err(LoadError::IncludeDepthExceeded);
        }
        self.include_depth += 1;
        Ok(())
    }

    /// Leaves the file that was entered last.
    pub fn leave_file(&mut self)
        ensures
            final(self)@ == (SfzParserView {
                include_depth: if old(self).include_depth > 0 {
                    (old(self).include_depth - 1) as usize
                } else {
                    0
                },
                ..old(self)@
            }),
    {
        if self.include_depth > 0 {
            self.include_depth -= 1;
        }
    }

    /// Replaces the defined names in a line by their values.
    pub fn expand_defines(&self, line: &str) -> (r: String)
        ensures
            r@ == expanded(self@.defines, line@, self@.defines.len() as int),
    {
        let mut result = line.to_owned();
        let count: usize = self.defines.len();
        let mut i: usize = 0;
        while i < count
            invariant
                i <= count,
                count == self.defines.len(),
                result@ == expanded(opcode_texts(self.defines@), line@, i as int),
            decreases count - i,
        {
            result = replace(
                result.as_str(),
                self.defines[i].name.as_str(),
                self.defines[i].value.as_str(),
            );
            i += 1;
        }
        result
    }

    /// Takes in one line of the definition.
    pub fn parse_line(&mut self, line: &str) -> (r: LineOutcome)
        ensures
            final(self)@ == old(self)@.after_line(line@),
            match r {
                LineOutcome::Parsed => include_of(line@) is None,
                LineOutcome::Include(file) => include_of(line@) == Some(file@),
            },
    {
        let text = trim(strip_comments(line));
        if text.unicode_len() == 0 {
            return LineOutcome::Parsed;
        }
        if starts_with(text, "#define") {
            self.define(text);
            return LineOutcome::Parsed;
        }
        if starts_with(text, "#include") {
            return LineOutcome::Include(include_file(text));
        }
        let full = self.expand_defines(text);
        let body = trim(full.as_str());
        self.parse_body(body);
        LineOutcome::Parsed
    }

    /// Takes in a `#define` line.
    fn define(&mut self, text: &str)
        ensures
            final(self)@ == old(self)@.defined(text@),
    {
        let chars = chars_of(text);
        let len: usize = chars.len();
        let first = find_in(&chars, ' ', 0, len);
        if first >= len {
            return ;
        }
        let second = find_in(&chars, ' ', first + 1, len);
        if second >= len {
            return ;
        }
        let name = text.substring_char(first + 1, second).to_owned();
        let value = text.substring_char(second + 1, len).to_owned();
        put_opcode(&mut self.defines, name, value);
    }

    /// Takes in a line that holds a header or opcodes.
    fn parse_body(&mut self, body: &str)
        ensures
            final(self)@ == old(self)@.after_body(body@),
    {
        let chars = chars_of(body);
        let len: usize = chars.len();
        let lt = find_in(&chars, '<', 0, len);
        if lt >= len {
            self.apply_opcodes_to_section(body);
            return ;
        }
        self.finalize_pending_region();
        let gt = find_in(&chars, '>', 0, len);
        if gt < len && lt < gt {
            let name = to_lowercase(body.substring_char(lt + 1, gt));
            self.open_section(name.as_str());
            let rest_start = skip_whitespace_in(&chars, gt + 1, len);
            let rest_end = drop_whitespace_in(&chars, rest_start, len);
            if rest_start < rest_end {
                self.apply_opcodes_to_section(body.substring_char(rest_start, rest_end));
            }
        } else {
            self.apply_opcodes_to_section(body);
        }
    }

    /// Opens the section that a header names. The name is taken as it
    /// stands between `<` and `>`, in lower case.
    pub fn open_section(&mut self, name: &str)
        ensures
            final(self)@ == old(self)@.opened(name@),
    {
        if same_text(name, "control") {
            self.current_section = Section::Control;
        } else if same_text(name, "global") {
            self.current_section = Section::Global;
        } else if same_text(name, "master") {
            let mut ops = OpcodeSet::new();
            ops.merge(&self.global_opcodes);
            self.master_opcodes = ops;
            self.current_section = Section::Master;
        } else if same_text(name, "group") {
            let mut ops = OpcodeSet::new();
            ops.merge(&self.global_opcodes);
            ops.merge(&self.master_opcodes);
            self.group_opcodes = ops;
            self.current_section = Section::Group;
        } else if same_text(name, "region") {
            let mut ops = OpcodeSet::new();
            ops.merge(&self.global_opcodes);
            ops.merge(&self.master_opcodes);
            ops.merge(&self.group_opcodes);
            self.pending_region = Some(ops);
            self.current_section = Section::Region;
        } else {
            self.current_section = Section::Outside;
        }
    }

    /// Hands the opcodes of a line to the section that is open.
    pub fn apply_opcodes_to_section(&mut self, line: &str)
        ensures
            final(self)@ == old(self)@.applied(line@),
    {
        let opcodes = parse_opcodes(line);
        match self.current_section {
            Section::Control => {
                match lookup(&opcodes, "default_path") {
                    Some(at) => {
                        self.default_path = opcodes[at].value.clone();
                    },
                    None => {},
                }
            },
            Section::Global => apply_opcodes(&mut self.global_opcodes, &opcodes),
            Section::Master => apply_opcodes(&mut self.master_opcodes, &opcodes),
            Section::Group => apply_opcodes(&mut self.group_opcodes, &opcodes),
            Section::Region => {
                match self.pending_region.take() {
                    Some(mut ops) => {
                        apply_opcodes(&mut ops, &opcodes);
                        self.pending_region = Some(ops);
                    },
                    None => {},
                }
            },
            Section::Outside => {},
        }
    }

    /// Ends the region that is being described, if there is one.
    pub fn finalize_pending_region(&mut self)
        ensures
            final(self)@ == old(self)@.finalized(),
    {
        match self.pending_region.take() {
            Some(opcodes) => {
                let request = RegionRequest { opcodes, default_path: self.default_path.clone() };
                self.finished.push(request);
                assert(self@.finished =~= old(self)@.finished.push(request@));
            },
            None => {},
        }
    }
}

/// Reads the file name of an `#include` line.
fn include_file(text: &str) -> (r: String)
    ensures
        r@ == include_target(text@),
{
    let chars = chars_of(text);
    let directive = chars_of("#include");
    let len: usize = chars.len();
    let mut from: usize = 0;
    while directive.len() > 0 && starts_with_at(&chars, &directive, from)
        invariant
            from <= len,
            len == chars.len(),
            chars@ == text@,
            directive@ == "#include"@,
            skip_prefixes(text@, "#include"@, 0) == skip_prefixes(
                text@,
                "#include"@,
                from as int,
            ),
        decreases len - from,
    {
        from += directive.len();
    }
    let start = skip_whitespace_in(&chars, from, len);
    let end = drop_whitespace_in(&chars, start, len);
    let start2 = skip_char_in(&chars, '"', start, end);
    let end2 = drop_char_in(&chars, '"', start2, end);
    let start3 = skip_char_in(&chars, '\'', start2, end2);
    let end3 = drop_char_in(&chars, '\'', start3, end2);
    text.substring_char(start3, end3).to_owned()
}

} // verus!
