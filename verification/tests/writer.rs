use comet::record::{IncrementalJsonWriter, WritePlan};
use comet::sequencer::Sequencer;

fn apply_plan(file: &mut Vec<u8>, plan: &WritePlan) {
    file.truncate(plan.offset as usize);
    file.extend_from_slice(&plan.bytes);
}

#[test]
fn fresh_writer_lays_down_the_empty_array() {
    let (_writer, init) = IncrementalJsonWriter::new();
    let mut file: Vec<u8> = Vec::new();
    apply_plan(&mut file, &init);
    assert_eq!(file, b"[\n\n]".to_vec());
    let parsed: serde_json::Value = serde_json::from_slice(&file).unwrap();
    assert_eq!(parsed.as_array().unwrap().len(), 0);
}

#[test]
fn two_records_exact_layout() {
    let (mut writer, init) = IncrementalJsonWriter::new();
    let mut file: Vec<u8> = Vec::new();
    apply_plan(&mut file, &init);
    let plan = writer.write(b"{\"a\":1}").unwrap();
    apply_plan(&mut file, &plan);
    assert_eq!(file, b"[\n{\"a\":1}\n]".to_vec());
    let plan = writer.write(b"{\"a\":2}").unwrap();
    apply_plan(&mut file, &plan);
    assert_eq!(file, b"[\n{\"a\":1},\n{\"a\":2}\n]".to_vec());
}

#[test]
fn n_appends_parse_back_as_n_elements() {
    for n in 0usize..6 {
        let (mut writer, init) = IncrementalJsonWriter::new();
        let mut file: Vec<u8> = Vec::new();
        apply_plan(&mut file, &init);
        for i in 0..n {
            let rec = format!("{{\"n\":{}}}", i).into_bytes();
            let plan = writer.write(&rec).unwrap();
            apply_plan(&mut file, &plan);
        }
        let parsed: serde_json::Value = serde_json::from_slice(&file).unwrap();
        let arr = parsed.as_array().unwrap();
        assert_eq!(arr.len(), n);
        for i in 0..n {
            assert_eq!(arr[i]["n"], i);
        }
    }
}

#[test]
fn append_never_touches_prior_record_bytes() {
    let (mut writer, init) = IncrementalJsonWriter::new();
    let mut file: Vec<u8> = Vec::new();
    apply_plan(&mut file, &init);
    let records: [&[u8]; 4] = [b"{\"r\":0}", b"{\"r\":1}", b"{\"r\":2}", b"{\"r\":3}"];
    let mut previous = file.clone();
    for rec in records.iter() {
        let plan = writer.write(rec).unwrap();
        apply_plan(&mut file, &plan);
        let kept = previous.len() - 2;
        assert_eq!(&file[..kept], &previous[..kept]);
        previous = file.clone();
    }
}

#[test]
fn write_json_produces_parseable_record() {
    let mut seq = Sequencer::new();
    let unit = seq.assign(b"ping\n".to_vec(), 1);
    let timestamp = String::from_utf8(unit.captured_at.clone()).unwrap();

    let (mut writer, init) = IncrementalJsonWriter::new();
    let mut file: Vec<u8> = Vec::new();
    apply_plan(&mut file, &init);
    let plan = writer.write_json(&unit).unwrap();
    apply_plan(&mut file, &plan);

    let parsed: serde_json::Value = serde_json::from_slice(&file).unwrap();
    let arr = parsed.as_array().unwrap();
    assert_eq!(arr.len(), 1);
    assert_eq!(arr[0]["idx"], 0);
    assert_eq!(arr[0]["timestamp"], timestamp.as_str());
    assert_eq!(arr[0]["source"], 1);
    assert_eq!(arr[0]["is_raw"], false);
    assert_eq!(arr[0]["data"], "70696e670a");
}
