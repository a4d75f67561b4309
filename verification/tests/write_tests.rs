//! Tests of the writer's exact framing.

fn obj_foo_bar() -> serde_json::Value {
    let mut m = serde_json::Map::new();
    m.insert(
        "foo".to_string(),
        serde_json::Value::String("bar".to_string()),
    );
    serde_json::Value::Object(m)
}

fn arr_one_two_c() -> serde_json::Value {
    serde_json::Value::Array(vec![
        serde_json::Value::from(1),
        serde_json::Value::from(2),
        serde_json::Value::String("c".to_string()),
    ])
}

#[test]
fn raw1() {
    let buf = Vec::new();
    let mut wtr = jsonseq::JsonSeqWriter::new(buf);

    wtr.write_item_raw("hello".as_bytes()).unwrap();

    assert_eq!(
        wtr.get_ref(),
        &[0x1E, 'h' as u8, 'e' as u8, 'l' as u8, 'l' as u8, 'o' as u8, 0x0A]
    );
}

#[test]
fn json1() {
    let buf = Vec::new();
    let mut wtr = jsonseq::JsonSeqWriter::new(buf);

    wtr.write_item(&obj_foo_bar()).unwrap();
    wtr.write_item(&arr_one_two_c()).unwrap();

    let buf = wtr.into_inner();

    let (step, buf) = buf.split_at(1);
    assert_eq!(step, &[0x1E]);
    let (step, buf) = buf.split_at(13);
    assert_eq!(step, "{\"foo\":\"bar\"}".as_bytes());
    let (step, buf) = buf.split_at(1);
    assert_eq!(step, &[0x0A]);

    let (step, buf) = buf.split_at(1);
    assert_eq!(step, &[0x1E]);
    let (step, buf) = buf.split_at(9);
    assert_eq!(step, "[1,2,\"c\"]".as_bytes());
    let (step, buf) = buf.split_at(1);
    assert_eq!(step, &[0x0A]);

    assert_eq!(buf.len(), 0);
}

#[test]
fn json_framing_compact() {
    let mut wtr = jsonseq::JsonSeqWriter::new(Vec::new());
    wtr.write_item(&obj_foo_bar()).unwrap();
    let mut expected = vec![0x1Eu8];
    expected.extend_from_slice("{\"foo\":\"bar\"}".as_bytes());
    expected.push(0x0A);
    assert_eq!(wtr.into_inner(), expected);
}

#[test]
fn writer_get_mut_reaches_stream() {
    let mut wtr = jsonseq::JsonSeqWriter::new(Vec::new());
    wtr.write_item_raw(b"a").unwrap();
    wtr.get_mut().clear();
    wtr.write_item_raw(b"b").unwrap();
    assert_eq!(wtr.into_inner(), vec![0x1Eu8, 'b' as u8, 0x0Au8]);
}

#[test]
fn writer_from_vec() {
    let mut wtr = jsonseq::JsonSeqWriter::from(vec![0x21u8]);
    wtr.write_item_raw(b"x").unwrap();
    assert_eq!(wtr.get_ref(), &[0x21u8, 0x1E, 'x' as u8, 0x0A]);
}
