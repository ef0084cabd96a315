use comet::record::IncrementalJsonWriter;
use comet::render::render_record;
use comet::sequencer::Pipeline;

fn apply_plan(file: &mut Vec<u8>, plan: &comet::record::WritePlan) {
    file.truncate(plan.offset as usize);
    file.extend_from_slice(&plan.bytes);
}

#[test]
fn interleaved_reads_are_sequenced_without_gaps() {
    let mut p = Pipeline::new();
    let reads: [(u32, &[u8]); 6] = [
        (1, b"alpha\n"),
        (2, b"beta\n"),
        (2, b"gamma\n"),
        (1, b"delta\n"),
        (1, b"epsilon\n"),
        (2, b"zeta\n"),
    ];
    for (source, payload) in reads.iter() {
        p.capture(payload.to_vec(), *source);
    }
    assert_eq!(p.channel.len(), 6);
    for (i, unit) in p.channel.iter().enumerate() {
        assert_eq!(unit.sequence, i as u64);
        assert_eq!(unit.source_id, reads[i].0);
        assert_eq!(unit.payload, reads[i].1.to_vec());
        assert!(!unit.is_binary);
    }
    for w in p.channel.windows(2) {
        assert!(w[0].sequence < w[1].sequence);
    }
}

#[test]
fn two_links_hello_world_capture_file() {
    let mut p = Pipeline::new();
    p.capture(b"hello\n".to_vec(), 1);
    p.capture(b"world\n".to_vec(), 2);

    let (mut writer, init) = IncrementalJsonWriter::new();
    let mut file: Vec<u8> = Vec::new();
    apply_plan(&mut file, &init);
    for unit in p.channel.iter() {
        let rec = render_record(unit);
        let plan = writer.write(&rec).unwrap();
        apply_plan(&mut file, &plan);
    }

    let parsed: serde_json::Value = serde_json::from_slice(&file).unwrap();
    let arr = parsed.as_array().unwrap();
    assert_eq!(arr.len(), 2);
    assert_eq!(arr[0]["idx"], 0);
    assert_eq!(arr[0]["source"], 1);
    assert_eq!(arr[0]["is_raw"], false);
    assert_eq!(arr[0]["data"], "68656c6c6f0a");
    assert_eq!(arr[1]["idx"], 1);
    assert_eq!(arr[1]["source"], 2);
    assert_eq!(arr[1]["is_raw"], false);
    assert_eq!(arr[1]["data"], hex::encode(b"world\n"));
}

#[test]
fn sequence_advances_even_for_binary_chunks() {
    let mut p = Pipeline::new();
    p.capture(vec![0xff, 0x00, 0x0a], 1);
    p.capture(b"ok\n".to_vec(), 2);
    assert!(p.channel[0].is_binary);
    assert!(!p.channel[1].is_binary);
    assert_eq!(p.channel[0].sequence, 0);
    assert_eq!(p.channel[1].sequence, 1);
}
