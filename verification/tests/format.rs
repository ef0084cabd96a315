use comet::console::format_console_line;
use comet::hexcode::hex_encode;
use comet::render::render_record;
use comet::sequencer::Sequencer;
use comet::text::trim_ascii_ws;
use comet::unit::CapturedUnit;

#[test]
fn invalid_text_is_marked_binary_and_hex_round_trips() {
    let raw = vec![0xff, 0x00, 0x0a];
    let mut seq = Sequencer::new();
    let unit = seq.assign(raw.clone(), 1);
    assert!(unit.is_binary);
    let encoded = hex_encode(&unit.payload);
    assert_eq!(encoded, b"ff000a".to_vec());
    let decoded = hex::decode(&encoded).unwrap();
    assert_eq!(decoded, raw);
}

#[test]
fn binary_chunk_console_line_shows_hex() {
    let mut seq = Sequencer::new();
    let unit = seq.assign(vec![0xff, 0x00, 0x0a], 2);
    assert!(unit.is_binary);
    let line = format_console_line(&unit, false, true, false).unwrap();
    assert_eq!(line, b"[>] ff000a".to_vec());
}

#[test]
fn text_chunk_console_line_is_trimmed_text() {
    let mut seq = Sequencer::new();
    let unit = seq.assign(b"hello\r\n".to_vec(), 1);
    assert!(!unit.is_binary);
    let line = format_console_line(&unit, false, true, false).unwrap();
    assert_eq!(line, b"[<] hello".to_vec());
    let bare = format_console_line(&unit, false, false, false).unwrap();
    assert_eq!(bare, b"hello".to_vec());
}

#[test]
fn colour_markers_use_ansi_codes() {
    let mut seq = Sequencer::new();
    let unit1 = seq.assign(b"a\n".to_vec(), 1);
    let unit2 = seq.assign(b"b\n".to_vec(), 2);
    let line1 = format_console_line(&unit1, false, true, true).unwrap();
    assert_eq!(line1, b"[\x1b[38;5;4m<\x1b[m] a".to_vec());
    let line2 = format_console_line(&unit2, false, true, true).unwrap();
    assert_eq!(line2, b"[\x1b[38;5;1m>\x1b[m] b".to_vec());
}

#[test]
fn mislabelled_text_unit_is_skipped() {
    let unit = CapturedUnit {
        sequence: 0,
        captured_at: b"t".to_vec(),
        source_id: 1,
        is_binary: false,
        payload: vec![0xff],
    };
    assert!(format_console_line(&unit, true, true, true).is_none());
}

#[test]
fn record_text_is_exact() {
    let unit = CapturedUnit {
        sequence: 42,
        captured_at: b"2020-01-02T03:04:05+00:00".to_vec(),
        source_id: 2,
        is_binary: true,
        payload: vec![0xab, 0x0a],
    };
    let rec = render_record(&unit);
    let expected = "{\n  \"idx\": 42,\n  \"timestamp\": \"2020-01-02T03:04:05+00:00\",\n  \"source\": 2,\n  \"is_raw\": true,\n  \"data\": \"ab0a\"\n}";
    assert_eq!(rec, expected.as_bytes().to_vec());
}

#[test]
fn trim_removes_only_edge_whitespace() {
    assert_eq!(trim_ascii_ws(b"  a b\t\r\n"), b"a b".to_vec());
    assert_eq!(trim_ascii_ws(b""), Vec::<u8>::new());
    assert_eq!(trim_ascii_ws(b" \t\n"), Vec::<u8>::new());
    assert_eq!(trim_ascii_ws(b"x"), b"x".to_vec());
}

#[test]
fn hex_of_empty_is_empty() {
    assert_eq!(hex_encode(b""), Vec::<u8>::new());
}
