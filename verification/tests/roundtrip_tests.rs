//! Round-trip tests: what the writer frames, the reader gives back.

fn obj_foo_bar() -> serde_json::Value {
    let mut m = serde_json::Map::new();
    m.insert(
        "foo".to_string(),
        serde_json::Value::String("bar".to_string()),
    );
    serde_json::Value::Object(m)
}

fn arr_one_two_c() -> serde_json::Value {
    serde_json::Value::Array(vec![
        serde_json::Value::from(1),
        serde_json::Value::from(2),
        serde_json::Value::String("c".to_string()),
    ])
}

#[test]
fn roundtrip1() {
    let buf = Vec::new();
    let mut wtr = jsonseq::JsonSeqWriter::new(buf);

    wtr.write_item(&obj_foo_bar()).unwrap();
    wtr.write_item(&arr_one_two_c()).unwrap();

    let buf = wtr.into_inner();
    let mut rdr = jsonseq::JsonSeqReader::new(buf);

    assert_eq!(rdr.next_from_json().unwrap().unwrap(), obj_foo_bar());
    assert_eq!(rdr.next_from_json().unwrap().unwrap(), arr_one_two_c());
    assert_eq!(rdr.next_from_json().unwrap(), None);
    assert_eq!(rdr.next_from_json().unwrap(), None);
}

#[test]
fn roundtrip_many_values() {
    let values = vec![
        serde_json::Value::Null,
        serde_json::Value::Bool(true),
        serde_json::Value::from(13),
        serde_json::Value::String("a\nb".to_string()),
        obj_foo_bar(),
        arr_one_two_c(),
    ];
    let mut wtr = jsonseq::JsonSeqWriter::new(Vec::new());
    for v in &values {
        wtr.write_item(v).unwrap();
    }
    let mut rdr = jsonseq::JsonSeqReader::new(wtr.into_inner());
    for v in &values {
        assert_eq!(&rdr.next_from_json().unwrap().unwrap(), v);
    }
    assert!(rdr.next_from_json().unwrap().is_none());
    assert!(rdr.next_from_json().unwrap().is_none());
}

#[test]
fn roundtrip_floats_exactly() {
    let values = vec![
        serde_json::Value::Number(serde_json::Number::from_f64(5e-324).unwrap()),
        serde_json::Value::Number(serde_json::Number::from_f64(0.1).unwrap()),
        serde_json::Value::Number(serde_json::Number::from_f64(-1.5e300).unwrap()),
    ];
    let mut wtr = jsonseq::JsonSeqWriter::new(Vec::new());
    for v in &values {
        wtr.write_item(v).unwrap();
    }
    let mut rdr = jsonseq::JsonSeqReader::new(wtr.into_inner());
    for v in &values {
        assert_eq!(&rdr.next_from_json().unwrap().unwrap(), v);
    }
    assert!(rdr.next_from_json().unwrap().is_none());
}

#[test]
fn roundtrip_text_with_multibyte_characters() {
    let mut wtr = jsonseq::JsonSeqWriter::new(Vec::new());
    wtr.write_item_raw("héllo wörld".as_bytes()).unwrap();
    let mut rdr = jsonseq::JsonSeqReader::new(wtr.into_inner());
    assert_eq!(rdr.next_item_str().unwrap().unwrap(), "héllo wörld\n");
    assert!(rdr.next_item_str().unwrap().is_none());
}
