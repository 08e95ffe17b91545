use samplo::loader::{AudioData, LoadError};
use samplo::sfz::{
    apply_opcodes, build_region, parse_opcodes, LineOutcome, OpcodeSet, Section, SfzParser,
    MAX_INCLUDE_DEPTH,
};

fn parse(lines: &[&str]) -> SfzParser {
    let mut parser = SfzParser::new();
    for line in lines {
        assert_eq!(parser.parse_line(line), LineOutcome::Parsed);
    }
    parser.finalize_pending_region();
    parser
}

fn set(line: &str) -> OpcodeSet<String> {
    let mut ops = OpcodeSet::new();
    apply_opcodes(&mut ops, &parse_opcodes(line));
    ops
}

#[test]
fn new_parser_is_empty() {
    let p = SfzParser::new();
    assert!(p.defines.is_empty());
    assert_eq!(p.default_path, "");
    assert_eq!(p.global_opcodes, OpcodeSet::new());
    assert_eq!(p.current_section, Section::Outside);
    assert_eq!(p.pending_region, None);
    assert!(p.finished.is_empty());
    assert_eq!(p.include_depth, 0);
}

#[test]
fn opcodes_are_read_into_the_set() {
    let ops = set("sample=a.wav offset=10 end=20 lokey=c3 hikey=50 pitch_keycenter=d3 lovel=1 hivel=100 loop_mode=loop_sustain loop_start=5 loop_end=15 tune=-12.5 volume=3 pan=1e1 seq_length=4 seq_position=2 group=7");
    assert_eq!(ops.sample.as_deref(), Some("a.wav"));
    assert_eq!((ops.offset, ops.end), (Some(10), Some(20)));
    assert_eq!((ops.lokey, ops.hikey, ops.pitch_keycenter, ops.key), (Some(48), Some(50), Some(50), None));
    assert_eq!((ops.lovel, ops.hivel), (Some(1), Some(100)));
    assert_eq!(ops.loop_mode.as_deref(), Some("loop_sustain"));
    assert_eq!((ops.loop_start, ops.loop_end), (Some(5), Some(15)));
    assert_eq!(ops.tune.as_deref(), Some("-12.5"));
    assert_eq!(ops.volume.as_deref(), Some("3"));
    assert_eq!(ops.pan.as_deref(), Some("1e1"));
    assert_eq!((ops.seq_length, ops.seq_position, ops.group), (Some(4), Some(2), Some(7)));
}

#[test]
fn key_sets_the_range_and_the_root() {
    let ops = set("key=60");
    assert_eq!((ops.key, ops.lokey, ops.hikey, ops.pitch_keycenter), (Some(60), Some(60), Some(60), Some(60)));
    let later = set("key=60 hikey=72");
    assert_eq!((later.lokey, later.hikey), (Some(60), Some(72)));
    let earlier = set("hikey=72 key=60");
    assert_eq!((earlier.lokey, earlier.hikey), (Some(60), Some(60)));
    let bad = set("lokey=10 key=zz");
    assert_eq!((bad.key, bad.lokey, bad.hikey), (None, Some(10), None));
}

#[test]
fn unreadable_value_clears_the_opcode() {
    let mut ops = set("offset=10 lovel=5 tune=3 lokey=c4 group=2");
    apply_opcodes(&mut ops, &parse_opcodes("offset=ten lovel=256 tune=3cents lokey=x group=-1"));
    assert_eq!(ops.offset, None);
    assert_eq!(ops.lovel, None);
    assert_eq!(ops.tune, None);
    assert_eq!(ops.lokey, None);
    assert_eq!(ops.group, None);
    let big = set("group=4294967295 seq_position=4294967296 offset=+7");
    assert_eq!(big.group, Some(u32::MAX));
    assert_eq!(big.seq_position, None);
    assert_eq!(big.offset, Some(7));
}

#[test]
fn unknown_opcodes_are_ignored() {
    assert_eq!(set("ampeg_release=0.5 foo=bar"), OpcodeSet::new());
}

#[test]
fn merge_overlays_what_is_given() {
    let mut base = set("sample=a.wav lokey=10 hikey=20 tune=5 volume=1");
    let over = set("lokey=12 tune=7 pan=3 loop_mode=one_shot");
    base.merge(&over);
    assert_eq!(base.sample.as_deref(), Some("a.wav"));
    assert_eq!((base.lokey, base.hikey), (Some(12), Some(20)));
    assert_eq!(base.tune.as_deref(), Some("7"));
    assert_eq!(base.volume.as_deref(), Some("1"));
    assert_eq!(base.pan.as_deref(), Some("3"));
    assert_eq!(base.loop_mode.as_deref(), Some("one_shot"));
    let copy = base.duplicate();
    assert_eq!(copy, base);
    base.merge(&OpcodeSet::new());
    assert_eq!(copy, base);
}

#[test]
fn regions_inherit_from_global_master_and_group() {
    let p = parse(&[
        "// a kit",
        "<control> default_path=samples/",
        "<global> volume=-3 lovel=1",
        "<master> tune=10",
        "<group> lokey=36 hikey=40 group=1",
        "<region> sample=a.wav seq_position=1",
        "<region> sample=b.wav seq_position=2 hikey=41",
        "<group> key=50",
        "<region>",
        "sample=c.wav",
        "volume=0",
    ]);
    assert_eq!(p.finished.len(), 3);
    assert_eq!(p.pending_region, None);
    let a = &p.finished[0];
    assert_eq!(a.default_path, "samples/");
    assert_eq!(a.opcodes.sample.as_deref(), Some("a.wav"));
    assert_eq!(a.opcodes.volume.as_deref(), Some("-3"));
    assert_eq!(a.opcodes.tune.as_deref(), Some("10"));
    assert_eq!((a.opcodes.lovel, a.opcodes.lokey, a.opcodes.hikey), (Some(1), Some(36), Some(40)));
    assert_eq!((a.opcodes.group, a.opcodes.seq_position), (Some(1), Some(1)));
    let b = &p.finished[1];
    assert_eq!(b.opcodes.sample.as_deref(), Some("b.wav"));
    assert_eq!((b.opcodes.lokey, b.opcodes.hikey, b.opcodes.seq_position), (Some(36), Some(41), Some(2)));
    let c = &p.finished[2];
    assert_eq!(c.opcodes.sample.as_deref(), Some("c.wav"));
    assert_eq!(c.opcodes.volume.as_deref(), Some("0"));
    assert_eq!(c.opcodes.tune.as_deref(), Some("10"));
    assert_eq!((c.opcodes.lokey, c.opcodes.hikey, c.opcodes.pitch_keycenter), (Some(50), Some(50), Some(50)));
    assert_eq!((c.opcodes.group, c.opcodes.lovel), (None, Some(1)));
}

#[test]
fn master_starts_over_from_global() {
    let p = parse(&[
        "<global> lokey=1",
        "<master> tune=5",
        "<group> pan=9",
        "<master> volume=2",
        "<region> sample=x.wav",
    ]);
    assert_eq!(p.master_opcodes.tune, None);
    assert_eq!(p.master_opcodes.lokey, Some(1));
    let ops = &p.finished[0].opcodes;
    assert_eq!(ops.lokey, Some(1));
    assert_eq!(ops.volume.as_deref(), Some("2"));
    // the group opened under the earlier master is still in force, with
    // what it inherited then
    assert_eq!(ops.pan.as_deref(), Some("9"));
    assert_eq!(ops.tune.as_deref(), Some("5"));
}

#[test]
fn header_ends_a_pending_region_with_the_path_in_force() {
    let mut p = SfzParser::new();
    p.parse_line("<control> default_path=one/");
    p.parse_line("<region> sample=a.wav");
    assert!(p.finished.is_empty());
    assert!(p.pending_region.is_some());
    p.parse_line("<control> default_path=two/");
    assert_eq!(p.finished.len(), 1);
    assert_eq!(p.finished[0].default_path, "one/");
    assert_eq!(p.default_path, "two/");
    p.parse_line("<region> sample=b.wav");
    p.finalize_pending_region();
    p.finalize_pending_region();
    assert_eq!(p.finished.len(), 2);
    assert_eq!(p.finished[1].default_path, "two/");
}

#[test]
fn unknown_headers_open_nothing() {
    let p = parse(&["<global> lokey=5", "<curve> lokey=9 curve_index=1", "v000=0", "<Region> sample=a.wav"]);
    assert_eq!(p.global_opcodes.lokey, Some(5));
    assert_eq!(p.finished.len(), 1);
    assert_eq!(p.finished[0].opcodes.lokey, Some(5));
}

#[test]
fn opcodes_outside_any_section_are_dropped() {
    let p = parse(&["lokey=5 sample=a.wav", "<region>", "sample=b.wav"]);
    assert_eq!(p.finished.len(), 1);
    assert_eq!(p.finished[0].opcodes.lokey, None);
}

#[test]
fn text_before_a_header_belongs_to_the_new_section() {
    let p = parse(&["<global> lokey=1", "hikey=9 <group> lovel=3", "<region> sample=a"]);
    assert_eq!(p.global_opcodes.hikey, None);
    assert_eq!(p.group_opcodes.lovel, Some(3));
    assert_eq!(p.finished[0].opcodes.lovel, Some(3));
}

#[test]
fn closing_bracket_before_the_opening_one_is_no_header() {
    let mut p = SfzParser::new();
    p.parse_line("<global>");
    p.parse_line("<region> sample=a.wav");
    assert_eq!(p.parse_line("volume=3 > <"), LineOutcome::Parsed);
    assert_eq!(p.finished.len(), 1);
    assert_eq!(p.current_section, Section::Region);
    assert_eq!(p.pending_region, None);
    p.parse_line("lokey=4 <global");
    assert_eq!(p.current_section, Section::Region);
}

#[test]
fn defines_are_expanded_in_the_order_of_definition() {
    let mut p = SfzParser::new();
    p.parse_line("#define $KEY 60");
    p.parse_line("#define $NAME kick one");
    p.parse_line("#define $KEY 61");
    assert_eq!(p.defines.len(), 2);
    assert_eq!((p.defines[0].name.as_str(), p.defines[0].value.as_str()), ("$KEY", "61"));
    assert_eq!((p.defines[1].name.as_str(), p.defines[1].value.as_str()), ("$NAME", "kick one"));
    assert_eq!(p.expand_defines("key=$KEY sample=$NAME.wav $KEY$KEY"), "key=61 sample=kick one.wav 6161");
    p.parse_line("<region> sample=$NAME.wav key=$KEY");
    p.finalize_pending_region();
    assert_eq!(p.finished[0].opcodes.sample.as_deref(), Some("kick one.wav"));
    assert_eq!(p.finished[0].opcodes.key, Some(61));
}

#[test]
fn define_needs_a_name_and_a_value() {
    let mut p = SfzParser::new();
    p.parse_line("#define");
    p.parse_line("#define $A");
    p.parse_line("#define$A 1");
    assert!(p.defines.is_empty());
    p.parse_line("#define $A  1");
    assert_eq!((p.defines[0].name.as_str(), p.defines[0].value.as_str()), ("$A", " 1"));
}

#[test]
fn include_lines_name_their_file() {
    let mut p = SfzParser::new();
    assert_eq!(p.parse_line("#include \"drums/kick.sfz\""), LineOutcome::Include(String::from("drums/kick.sfz")));
    assert_eq!(p.parse_line("  #include 'a b.sfz'  // note"), LineOutcome::Include(String::from("a b.sfz")));
    assert_eq!(p.parse_line("#include x.sfz"), LineOutcome::Include(String::from("x.sfz")));
    assert_eq!(p.parse_line("#include#include \"\"y\"\""), LineOutcome::Include(String::from("y")));
    assert_eq!(p.parse_line("#include"), LineOutcome::Include(String::new()));
    assert_eq!(p.parse_line("#include \"'z'\""), LineOutcome::Include(String::from("z")));
    assert_eq!(p.parse_line("#include '\"z\"'"), LineOutcome::Include(String::from("\"z\"")));
    assert_eq!(p.parse_line("x #include a"), LineOutcome::Parsed);
    assert_eq!(p.parse_line("// #include a"), LineOutcome::Parsed);
    assert_eq!(p, SfzParser::new());
}

#[test]
fn include_depth_is_bounded() {
    let mut p = SfzParser::new();
    assert_eq!(MAX_INCLUDE_DEPTH, 10);
    for depth in 0..=10 {
        assert_eq!(p.include_depth, depth);
        assert_eq!(p.enter_file(), Ok(()));
    }
    assert_eq!(p.include_depth, 11);
    assert_eq!(p.enter_file(), Err(LoadError::IncludeDepthExceeded));
    assert_eq!(p.include_depth, 11);
    p.leave_file();
    assert_eq!(p.include_depth, 10);
    assert_eq!(p.enter_file(), Ok(()));
    for _ in 0..20 {
        p.leave_file();
    }
    assert_eq!(p.include_depth, 0);
}

#[test]
fn blank_and_comment_lines_change_nothing() {
    let mut p = SfzParser::new();
    p.parse_line("<global> lokey=3");
    let before = p.clone();
    p.parse_line("");
    p.parse_line("   ");
    p.parse_line("// <region> sample=a.wav");
    p.parse_line("  //");
    assert_eq!(p, before);
}

#[test]
fn control_section_sets_the_sample_directory() {
    let mut p = SfzParser::new();
    p.parse_line("<control>");
    p.parse_line("default_path=..\\Samples\\ note_offset=2");
    assert_eq!(p.default_path, "..\\Samples\\");
    p.parse_line("note_offset=3");
    assert_eq!(p.default_path, "..\\Samples\\");
    p.parse_line("<region> sample=dir\\a.wav");
    p.finalize_pending_region();
    let location = p.finished[0].sample_location().unwrap();
    assert_eq!(location.directory, "../Samples/");
    assert_eq!(location.file, "dir/a.wav");
    p.parse_line("<region> lokey=3");
    p.finalize_pending_region();
    assert_eq!(p.finished[1].sample_location(), None);
}

#[test]
fn region_is_built_with_defaults() {
    let audio = AudioData { channels: 2, sample_rate: 48000, num_frames: 1234 };
    let r = build_region(&set("sample=a.wav"), String::from("/x/a.wav"), &audio);
    assert_eq!((r.channels, r.num_frames), (2, 1234));
    assert_eq!(r.root_note, 60);
    assert_eq!((r.lo_note, r.hi_note, r.lo_vel, r.hi_vel), (0, 127, 0, 127));
    assert_eq!((r.loop_start, r.loop_end, r.loop_enabled), (None, None, false));
    assert_eq!((r.rr_group, r.rr_seq), (0, 0));
    assert_eq!(r.sample_path, "/x/a.wav");
}

#[test]
fn region_is_built_from_its_opcodes() {
    let audio = AudioData { channels: 1, sample_rate: 44100, num_frames: 1000 };
    let r = build_region(
        &set("key=40 hikey=45 lovel=10 hivel=90 loop_mode=loop_continuous loop_start=100 loop_end=900 group=3 seq_position=4"),
        String::from("a"),
        &audio,
    );
    assert_eq!(r.root_note, 40);
    assert_eq!((r.lo_note, r.hi_note, r.lo_vel, r.hi_vel), (40, 45, 10, 90));
    assert_eq!((r.loop_start, r.loop_end, r.loop_enabled), (Some(100), Some(900), true));
    assert_eq!((r.rr_group, r.rr_seq), (3, 3));
    assert!(r.is_well_formed());
    let rooted = build_region(&set("key=40 pitch_keycenter=52"), String::from("a"), &audio);
    assert_eq!(rooted.root_note, 52);
    let sustain = build_region(&set("loop_mode=loop_sustain"), String::from("a"), &audio);
    assert!(sustain.loop_enabled);
    let one_shot = build_region(&set("loop_mode=one_shot seq_position=0"), String::from("a"), &audio);
    assert!(!one_shot.loop_enabled);
    assert_eq!(one_shot.rr_seq, 0);
    let upper = build_region(&set("loop_mode=LOOP_SUSTAIN seq_position=1"), String::from("a"), &audio);
    assert!(!upper.loop_enabled);
    assert_eq!(upper.rr_seq, 0);
}

#[test]
fn sections_open_by_their_lower_case_name() {
    let mut p = SfzParser::new();
    p.global_opcodes.lokey = Some(3);
    p.open_section("master");
    assert_eq!(p.current_section, Section::Master);
    assert_eq!(p.master_opcodes.lokey, Some(3));
    p.master_opcodes.hikey = Some(9);
    p.open_section("group");
    assert_eq!(p.current_section, Section::Group);
    assert_eq!((p.group_opcodes.lokey, p.group_opcodes.hikey), (Some(3), Some(9)));
    p.open_section("region");
    assert_eq!(p.current_section, Section::Region);
    assert_eq!(p.pending_region, Some(p.group_opcodes.clone()));
    p.open_section("control");
    assert_eq!(p.current_section, Section::Control);
    p.open_section("global");
    assert_eq!(p.current_section, Section::Global);
    p.open_section("Region");
    assert_eq!(p.current_section, Section::Outside);
    p.open_section("curve");
    assert_eq!(p.current_section, Section::Outside);
    // opening a section ends no region: that is the header's doing
    assert!(p.finished.is_empty());
}
