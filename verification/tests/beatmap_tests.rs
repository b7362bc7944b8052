use need_4_fruits::beatmap::{
    audio_file_with_ogg_extension, hitobject_processing, init_system, json_like_key_value_get,
    parse_osu, BeatmapError, OsuFileSection,
};

#[test]
fn round_trip_single_hit_object_line() {
    let source = b"[HitObjects]\n100,200,5000,1";
    let beatmap = parse_osu(source).expect("a single well-formed line must parse");
    let hits = beatmap.hit_objects().expect("the section must exist");
    assert_eq!(hits.len(), 1);
    assert_eq!(hits[0].time, 5000);
    // Positions are stored in milli-units: (100, 200) in world units.
    assert_eq!(hits[0].x, 100_000);
    assert_eq!(hits[0].y, 200_000);
    assert_eq!(hits[0].hit_type, 1);
}

#[test]
fn key_value_line_splits_at_first_colon() {
    let r = json_like_key_value_get(b"AudioFilename: audio.mp3").unwrap();
    assert_eq!(r.0, b"AudioFilename".to_vec());
    assert_eq!(r.1, b"audio.mp3".to_vec());
}

#[test]
fn key_value_line_keeps_later_colons_in_value() {
    let r = json_like_key_value_get(b"Title:a:b").unwrap();
    assert_eq!(r.0, b"Title".to_vec());
    assert_eq!(r.1, b"a:b".to_vec());
}

#[test]
fn key_value_line_without_colon_is_ignored() {
    assert!(json_like_key_value_get(b"no separator here").is_none());
}

#[test]
fn hit_object_line_with_too_few_fields_is_rejected() {
    assert_eq!(
        hitobject_processing(b"100,200"),
        Err(BeatmapError::TooFewHitObjectFields)
    );
}

#[test]
fn hit_object_line_with_bad_number_is_rejected() {
    assert_eq!(
        hitobject_processing(b"abc,200,5000,1"),
        Err(BeatmapError::MalformedNumber)
    );
    // A time past the 32-bit range is malformed too.
    assert_eq!(
        hitobject_processing(b"100,200,99999999999,1"),
        Err(BeatmapError::MalformedNumber)
    );
}

#[test]
fn hit_object_extra_fields_are_ignored() {
    let h = hitobject_processing(b"1,2,3,4,extra,fields").unwrap();
    assert_eq!(h.x, 1_000);
    assert_eq!(h.y, 2_000);
    assert_eq!(h.time, 3);
    assert_eq!(h.hit_type, 4);
}

#[test]
fn coordinates_accept_sign_and_fraction() {
    let h = hitobject_processing(b"-3.5,0.25,10,1").unwrap();
    assert_eq!(h.x, -3_500);
    assert_eq!(h.y, 250);
}

#[test]
fn sections_collect_key_values_and_ignore_blanks() {
    let source = b"[General]\nAudioFilename: song.mp3\n\nStackLeniency: 0.7\nnocolonhere\n";
    let beatmap = parse_osu(source).unwrap();
    let v = beatmap.section_value(b"[General]", b"AudioFilename").unwrap();
    assert_eq!(v, b"song.mp3".to_vec());
    let w = beatmap.section_value(b"[General]", b"StackLeniency").unwrap();
    assert_eq!(w, b"0.7".to_vec());
    assert!(beatmap.section_value(b"[General]", b"Missing").is_none());
}

#[test]
fn repeated_key_keeps_last_value() {
    let source = b"[General]\nKey: one\nKey: two\n";
    let beatmap = parse_osu(source).unwrap();
    let v = beatmap.section_value(b"[General]", b"Key").unwrap();
    assert_eq!(v, b"two".to_vec());
}

#[test]
fn carriage_returns_are_stripped() {
    let source = b"[HitObjects]\r\n7,8,9,1\r\n";
    let beatmap = parse_osu(source).unwrap();
    let hits = beatmap.hit_objects().unwrap();
    assert_eq!(hits.len(), 1);
    assert_eq!(hits[0].time, 9);
}

#[test]
fn malformed_hit_object_fails_the_whole_load() {
    let source = b"[HitObjects]\n1,2,3,1\nbroken line\n";
    assert!(parse_osu(source).is_err());
}

#[test]
fn data_before_any_section_is_ignored() {
    let source = b"osu file format v14\n[HitObjects]\n1,2,3,1\n";
    let beatmap = parse_osu(source).unwrap();
    assert_eq!(beatmap.hit_objects().unwrap().len(), 1);
}

#[test]
fn init_requires_hit_objects_section() {
    let beatmap = parse_osu(b"[General]\nAudioFilename: a.mp3\n").unwrap();
    assert_eq!(init_system(&beatmap), Err(BeatmapError::MissingSection));
}

#[test]
fn init_spans_the_track_to_the_last_hit_object() {
    let beatmap = parse_osu(b"[HitObjects]\n1,2,100,1\n3,4,2500,1\n").unwrap();
    let playback = init_system(&beatmap).unwrap();
    assert_eq!(playback.play_timer.duration_ms, 2500);
    assert_eq!(playback.start_timer.duration_ms, 500);
    assert_eq!(playback.music_offset_timer.duration_ms, 700);
    assert!(!playback.beatmap_started);
    assert_eq!(playback.current_hit_object_id, 0);
}

#[test]
fn duplicate_section_headers_merge() {
    let source = b"[HitObjects]\n1,2,3,1\n[General]\nA: b\n[HitObjects]\n4,5,6,1\n";
    let beatmap = parse_osu(source).unwrap();
    let hits = beatmap.hit_objects().unwrap();
    assert_eq!(hits.len(), 2);
    assert_eq!(hits[1].time, 6);
}

#[test]
fn mp3_extension_swaps_to_ogg() {
    assert_eq!(audio_file_with_ogg_extension(b"song.mp3"), b"song.ogg".to_vec());
    assert_eq!(audio_file_with_ogg_extension(b"song.wav"), b"song.wav".to_vec());
    assert_eq!(audio_file_with_ogg_extension(b"mp3"), b"mp3".to_vec());
}

#[test]
fn hit_objects_section_data_is_typed() {
    let beatmap = parse_osu(b"[HitObjects]\n1,2,3,1\n").unwrap();
    match beatmap.get(b"[HitObjects]") {
        Some(OsuFileSection::HitObjects(hs)) => assert_eq!(hs.len(), 1),
        _ => panic!("expected a hit-object section"),
    }
}
