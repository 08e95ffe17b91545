use samplo::loader::{
    assemble, checked_region, create_test_instrument, format_of_extension, is_instrument_file,
    load_region, AudioData, InstrumentFormat, LoadError,
};
use samplo::sample::{default_root, Region, RegionDef, RoundRobinState};
use samplo::{instrument_name_for_index, InstrumentSlot};

fn def() -> RegionDef {
    RegionDef {
        sample: String::from("kick.wav"),
        root: default_root(),
        lo_note: None,
        hi_note: None,
        lo_vel: None,
        hi_vel: None,
        loop_start: None,
        loop_end: None,
        loop_enabled: false,
        rr_group: 0,
        rr_seq: 0,
    }
}

#[test]
fn default_root_is_middle_c() {
    assert_eq!(default_root(), 60);
}

#[test]
fn decoded_samples_are_framed_by_channel() {
    assert_eq!(
        AudioData::from_decoded(88200, 2, 44100),
        Ok(AudioData { channels: 2, sample_rate: 44100, num_frames: 44100 })
    );
    assert_eq!(
        AudioData::from_decoded(7, 2, 48000),
        Ok(AudioData { channels: 2, sample_rate: 48000, num_frames: 3 })
    );
    assert_eq!(
        AudioData::from_decoded(5, 1, 8000),
        Ok(AudioData { channels: 1, sample_rate: 8000, num_frames: 5 })
    );
    assert_eq!(AudioData::from_decoded(0, 2, 44100), Err(LoadError::NoAudioData));
    assert_eq!(AudioData::from_decoded(10, 0, 44100), Err(LoadError::NoAudioData));
}

#[test]
fn descriptor_defaults_to_the_full_range() {
    let audio = AudioData { channels: 2, sample_rate: 44100, num_frames: 500 };
    let r = load_region(String::from("/i/kick.wav"), &def(), &audio);
    assert_eq!(
        r,
        Region {
            channels: 2,
            num_frames: 500,
            root_note: 60,
            lo_note: 0,
            hi_note: 127,
            lo_vel: 0,
            hi_vel: 127,
            loop_start: None,
            loop_end: None,
            loop_enabled: false,
            rr_group: 0,
            rr_seq: 0,
            sample_path: String::from("/i/kick.wav"),
        }
    );
}

#[test]
fn descriptor_values_are_taken_over() {
    let audio = AudioData { channels: 1, sample_rate: 22050, num_frames: 9 };
    let d = RegionDef {
        sample: String::from("s.flac"),
        root: 48,
        lo_note: Some(40),
        hi_note: Some(50),
        lo_vel: Some(64),
        hi_vel: Some(100),
        loop_start: Some(2),
        loop_end: Some(8),
        loop_enabled: true,
        rr_group: 3,
        rr_seq: 2,
    };
    let r = load_region(String::from("s.flac"), &d, &audio);
    assert_eq!((r.channels, r.num_frames, r.root_note), (1, 9, 48));
    assert_eq!((r.lo_note, r.hi_note, r.lo_vel, r.hi_vel), (40, 50, 64, 100));
    assert_eq!((r.loop_start, r.loop_end, r.loop_enabled), (Some(2), Some(8), true));
    assert_eq!((r.rr_group, r.rr_seq), (3, 2));
    assert!(r.is_well_formed());
}

#[test]
fn instrument_needs_a_region() {
    let audio = AudioData { channels: 1, sample_rate: 22050, num_frames: 9 };
    let r = load_region(String::from("s.wav"), &def(), &audio);
    let inst = assemble(String::from("Kit"), vec![r]).unwrap();
    assert_eq!(inst.name(), "Kit");
    assert_eq!(inst.regions().len(), 1);
    assert!(matches!(assemble(String::from("Kit"), Vec::new()), Err(LoadError::NoRegions)));
}

#[test]
fn extension_selects_the_format() {
    assert_eq!(format_of_extension("json"), Ok(InstrumentFormat::Json));
    assert_eq!(format_of_extension("sfz"), Ok(InstrumentFormat::Sfz));
    assert_eq!(format_of_extension("SFZ"), Err(LoadError::UnknownFormat));
    assert_eq!(format_of_extension("wav"), Err(LoadError::UnknownFormat));
    assert_eq!(format_of_extension(""), Err(LoadError::UnknownFormat));
    assert_eq!(format_of_extension("jso"), Err(LoadError::UnknownFormat));
    assert_eq!(format_of_extension("jsonx"), Err(LoadError::UnknownFormat));
}

#[test]
fn instrument_files_are_told_by_extension_in_any_case() {
    assert!(is_instrument_file("sfz"));
    assert!(is_instrument_file("json"));
    assert!(is_instrument_file("SFZ"));
    assert!(is_instrument_file("Json"));
    assert!(is_instrument_file("jSoN"));
    assert!(!is_instrument_file("wav"));
    assert!(!is_instrument_file(""));
    assert!(!is_instrument_file("sfzz"));
    assert!(!is_instrument_file(".sfz"));
}

#[test]
fn error_messages() {
    assert_eq!(LoadError::NoAudioData.message(), "No audio data decoded");
    assert_eq!(LoadError::NoRegions.message(), "No valid regions (check if samples exist)");
    assert_eq!(LoadError::UnknownFormat.message(), "Unknown format");
    assert_eq!(
        LoadError::IncludeDepthExceeded.message(),
        "Include depth exceeded (possible circular include)"
    );
}

#[test]
fn test_instrument_is_one_looping_region_over_everything() {
    let inst = create_test_instrument(44100, 4410, 39690);
    assert_eq!(inst.name(), "Test Sine");
    assert_eq!(inst.regions().len(), 1);
    let r = &inst.regions()[0];
    assert_eq!((r.channels, r.num_frames, r.root_note), (1, 44100, 69));
    assert_eq!((r.lo_note, r.hi_note, r.lo_vel, r.hi_vel), (0, 127, 0, 127));
    assert_eq!((r.loop_start, r.loop_end, r.loop_enabled), (Some(4410), Some(39690), true));
    assert_eq!((r.rr_group, r.rr_seq), (0, 0));
    assert_eq!(r.sample_path, "<generated>");
    let mut rr = RoundRobinState::new();
    assert_eq!(inst.find_region(0, 0, &mut rr), Some(0));
    assert_eq!(inst.find_region(127, 127, &mut rr), Some(0));
}

#[test]
fn catalog_index_is_clamped() {
    let catalog = vec![
        InstrumentSlot { name: String::from("Piano"), path: String::from("/i/piano.sfz") },
        InstrumentSlot { name: String::from("Organ"), path: String::from("/i/organ.json") },
        InstrumentSlot { name: String::from("Bass"), path: String::from("/i/bass.sfz") },
    ];
    assert_eq!(instrument_name_for_index(&catalog, 0), "Piano");
    assert_eq!(instrument_name_for_index(&catalog, 1), "Organ");
    assert_eq!(instrument_name_for_index(&catalog, 2), "Bass");
    assert_eq!(instrument_name_for_index(&catalog, 3), "Bass");
    assert_eq!(instrument_name_for_index(&catalog, i32::MAX), "Bass");
    assert_eq!(instrument_name_for_index(&catalog, -1), "Piano");
    assert_eq!(instrument_name_for_index(&catalog, i32::MIN), "Piano");
    assert_eq!(instrument_name_for_index(&Vec::new(), 0), "None");
    assert_eq!(instrument_name_for_index(&Vec::new(), 5), "None");
}

#[test]
fn malformed_regions_are_dropped() {
    let audio = AudioData { channels: 1, sample_rate: 44100, num_frames: 100 };
    let good = load_region(String::from("a.wav"), &def(), &audio);
    assert_eq!(checked_region(good.clone()), Some(good.clone()));
    let mut reversed = def();
    reversed.lo_note = Some(70);
    reversed.hi_note = Some(60);
    assert_eq!(checked_region(load_region(String::from("a.wav"), &reversed, &audio)), None);
    let mut high = def();
    high.hi_vel = Some(128);
    assert_eq!(checked_region(load_region(String::from("a.wav"), &high, &audio)), None);
    let mut open_loop = def();
    open_loop.loop_enabled = true;
    assert_eq!(checked_region(load_region(String::from("a.wav"), &open_loop, &audio)), None);
    open_loop.loop_start = Some(10);
    open_loop.loop_end = Some(101);
    assert_eq!(checked_region(load_region(String::from("a.wav"), &open_loop, &audio)), None);
    open_loop.loop_end = Some(100);
    assert!(checked_region(load_region(String::from("a.wav"), &open_loop, &audio)).is_some());
    let surround = AudioData { channels: 6, sample_rate: 44100, num_frames: 100 };
    assert_eq!(checked_region(load_region(String::from("a.wav"), &def(), &surround)), None);
}
