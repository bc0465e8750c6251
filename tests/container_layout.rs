use nus_free_audio::catalog::{fill_buffer, hook_mode, Catalog, FillOutcome, HookMode};
use nus_free_audio::container::{build_container, make_nus3audio, AudioEntry};
use nus_free_audio::estimate::{calc_nus3_size, layout_size};
use nus_free_audio::manifest::{name_le, sort_by_file_name, AudioFileInfo};
use nus_free_audio::path::{get_arc_path, is_stream_path};

fn info(name: &str, size: usize) -> AudioFileInfo {
    AudioFileInfo { name: name.to_string(), size, path: format!("/music/{}", name) }
}

fn payload(len: usize, seed: u8) -> Vec<u8> {
    (0..len).map(|i| (i as u8).wrapping_mul(7).wrapping_add(seed)).collect()
}

#[test]
fn estimate_three_files_by_hand() {
    // header 8 + index 16 + ids 20 + name offsets 20 + data offsets 32
    // + names header 8 = 104; names "a\0bb\0ccc\0" = 9 -> 113;
    // padding header 8 at 113 -> 121, pad 15; payload header 8 -> 144;
    // payloads 16 + 32 + 32 = 80 -> 224.
    let files = vec![info("a", 10), info("bb", 20), info("ccc", 30)];
    assert_eq!(calc_nus3_size(&files), Some(224));
}

#[test]
fn built_length_matches_estimate_three_files() {
    let files = vec![info("a", 10), info("bb", 20), info("ccc", 30)];
    let payloads = vec![payload(10, 1), payload(20, 2), payload(30, 3)];
    let bytes = build_container(&files, payloads).unwrap();
    assert_eq!(bytes.len(), 224);
    assert_eq!(Some(bytes.len()), calc_nus3_size(&files));
}

#[test]
fn built_length_matches_estimate_two_files() {
    let files = vec![info("first.lopus", 33), info("second.lopus", 17)];
    let payloads = vec![payload(33, 5), payload(17, 9)];
    let bytes = build_container(&files, payloads).unwrap();
    assert_eq!(Some(bytes.len()), calc_nus3_size(&files));
}

#[test]
fn single_entry_uses_unrounded_size() {
    // 56 + 16 = 72; name "a\0" -> 74; padding header -> 82, pad 6;
    // payload header -> 96; payload 10 unrounded -> 106 (not 112).
    let files = vec![info("a", 10)];
    assert_eq!(calc_nus3_size(&files), Some(106));
    let bytes = build_container(&files, vec![payload(10, 4)]).unwrap();
    assert_eq!(bytes.len(), 106);
}

#[test]
fn empty_manifest_size() {
    // 56; padding header -> 64, pad 8; payload header -> 80.
    let files: Vec<AudioFileInfo> = vec![];
    assert_eq!(calc_nus3_size(&files), Some(80));
    assert_eq!(build_container(&files, vec![]).unwrap().len(), 80);
}

#[test]
fn duplicate_payloads_stay_within_estimate() {
    let files = vec![info("x", 20), info("y", 20)];
    let same = payload(20, 6);
    let bytes = build_container(&files, vec![same.clone(), same]).unwrap();
    let estimate = calc_nus3_size(&files).unwrap();
    assert!(bytes.len() < estimate);
    assert_eq!(bytes.len(), estimate - 32);
}

#[test]
fn layout_size_overflow_is_none() {
    assert_eq!(layout_size(&[(1, usize::MAX - 10), (1, 10)]), None);
    assert_eq!(layout_size(&[(3, 5), (2, 17)]), Some(160));
}

#[test]
fn container_header_fields() {
    let entries = vec![AudioEntry { id: 7, name: "t".to_string(), data: payload(4, 0) }];
    let bytes = make_nus3audio(entries);
    assert_eq!(&bytes[0..4], b"NUS3");
    assert_eq!(u32::from_le_bytes([bytes[4], bytes[5], bytes[6], bytes[7]]) as usize, bytes.len() - 8);
    assert_eq!(&bytes[8..16], b"AUDIINDX");
    assert_eq!(&bytes[24..28], b"TNID");
    assert_eq!(u32::from_le_bytes([bytes[32], bytes[33], bytes[34], bytes[35]]), 7);
}

#[test]
fn manifest_sorted_and_numbered() {
    let listing = vec![info("b.wav", 3), info("a.wav", 1), info("c.wav", 2)];
    let files = sort_by_file_name(listing);
    let names: Vec<&str> = files.iter().map(|f| f.name.as_str()).collect();
    assert_eq!(names, vec!["a.wav", "b.wav", "c.wav"]);
    let payloads = vec![payload(1, 0), payload(3, 1), payload(2, 2)];
    let bytes = build_container(&files, payloads).unwrap();
    assert_eq!(&bytes[24..28], b"TNID");
    for k in 0..3usize {
        let at = 32 + 4 * k;
        let id = u32::from_le_bytes([bytes[at], bytes[at + 1], bytes[at + 2], bytes[at + 3]]);
        assert_eq!(id as usize, k);
    }
    let names_at = bytes.windows(4).position(|w| w == b"TNNM").unwrap() + 8;
    assert_eq!(&bytes[names_at..names_at + 18], b"a.wav\0b.wav\0c.wav\0");
}

#[test]
fn name_order_is_bytewise() {
    assert!(name_le(&info("B", 0), &info("a", 0)));
    assert!(!name_le(&info("ab", 0), &info("a", 0)));
    assert!(name_le(&info("a", 0), &info("a", 0)));
    let files = sort_by_file_name(vec![info("ab", 0), info("B", 0), info("a", 0), info("", 0)]);
    let names: Vec<&str> = files.iter().map(|f| f.name.as_str()).collect();
    assert_eq!(names, vec!["", "B", "a", "ab"]);
}

#[test]
fn logical_path_replaces_semicolons() {
    let root = "rom:/nusFreeAudio/";
    let first = get_arc_path(root, "rom:/nusFreeAudio/foo;bar.nus3audio");
    let second = get_arc_path(root, "rom:/nusFreeAudio/foo;bar.nus3audio");
    assert_eq!(first.as_deref(), Some("foo:bar.nus3audio"));
    assert_eq!(first, second);
    assert_eq!(
        get_arc_path(root, "rom:/nusFreeAudio/sound;bank/fighter.nus3audio").as_deref(),
        Some("sound:bank/fighter.nus3audio")
    );
    assert_eq!(get_arc_path(root, "rom:/elsewhere/x.nus3audio"), None);
}

#[test]
fn stream_prefix_selects_stream_mode() {
    assert!(is_stream_path("stream:/sound/bgm/x.nus3audio"));
    assert!(!is_stream_path("sound/stream.nus3audio"));
    let files = vec![info("a", 10), info("bb", 20), info("ccc", 30)];
    assert_eq!(hook_mode("stream:/sound/bgm/x.nus3audio", &files), Some(HookMode::Stream));
    assert_eq!(hook_mode("sound/bank/x.nus3audio", &files), Some(HookMode::Fixed(224)));
}

#[test]
fn unregistered_key_not_found() {
    let mut catalog = Catalog::new();
    assert!(catalog.lookup(0x1234).is_none());
    catalog.insert(0x99, vec![info("a", 1)]);
    assert!(catalog.lookup(0x1234).is_none());
    assert!(catalog.lookup(0x1234).is_none());
    let found = catalog.lookup(0x99).unwrap();
    assert_eq!(found.len(), 1);
    assert_eq!(found[0].name, "a");
}

#[test]
fn oversized_result_not_written() {
    let files = vec![info("a", 10), info("bb", 20), info("ccc", 30)];
    let reserved = calc_nus3_size(&files).unwrap();
    // The files grew after the size was reserved.
    let payloads = vec![payload(40, 1), payload(20, 2), payload(30, 3)];
    let bytes = build_container(&files, payloads).unwrap();
    assert!(bytes.len() > reserved);
    let mut buf = vec![0xAAu8; reserved];
    let outcome = fill_buffer(&mut buf, &bytes);
    assert_eq!(outcome, FillOutcome::Overflow { actual: bytes.len(), capacity: reserved });
    assert!(buf.iter().all(|b| *b == 0xAA));
}

#[test]
fn fitting_result_written() {
    let mut buf = vec![0u8; 6];
    let outcome = fill_buffer(&mut buf, &[1, 2, 3]);
    assert_eq!(outcome, FillOutcome::Written(3));
    assert_eq!(buf, vec![1, 2, 3, 0, 0, 0]);
    let mut exact = vec![9u8; 2];
    assert_eq!(fill_buffer(&mut exact, &[4, 5]), FillOutcome::Written(2));
    assert_eq!(exact, vec![4, 5]);
}
