use gaze::gaze::{Filter, Gaze, GazeError};
use gaze::json::JsonKind;
use gaze::reader::Reader;

const USER_CREATED: &str = r#"{
    "type": "record",
    "namespace": "my.company",
    "name": "user_created",
    "fields": [
        {"name": "name", "type": "string"},
        {"name": "age", "type": "int"}
    ]
}"#;

#[test]
fn hash_message_type_is_little_endian_xxhash32() {
    assert_eq!(Gaze::hash_message_type("hello".to_string()), vec![249, 119, 0, 251]);
    assert_eq!(Gaze::hash_message_type("helloworld".to_string()), vec![2, 226, 98, 35]);
    assert_eq!(Gaze::hash_message_type("hello".to_string()).len(), 4);
}

#[test]
fn message_id_mixes_random_and_time() {
    let id = Gaze::message_id_from(0x0102_0304_0506_0708, &[0x01, 0x02, 0x03]);
    assert_eq!(id, vec![0xfd, 0x03, 4, 3, 2, 1]);
    let id = Gaze::message_id_from(0, &[0xff, 0x00, 0x00]);
    assert_eq!(id, vec![0xff, 0x00, 0, 0, 0, 0]);
}

#[test]
fn subscription_id_mixes_random_and_time() {
    let id = Gaze::subscription_id_from(0x0102_0304_0506_0708, &[0xaa, 0xbb]);
    assert_eq!(id, vec![0xaa, 0xbb, 4, 3]);
}

#[test]
fn qualify_name_joins_namespace_and_name() {
    assert_eq!(Gaze::qualify_name(Some("my.company"), Some("user_created")), "my.company.user_created");
    assert_eq!(Gaze::qualify_name(None, Some("user_created")), "user_created");
    assert_eq!(Gaze::qualify_name(Some("ns"), None), "ns.");
    assert_eq!(Gaze::qualify_name(None, None), "");
    assert_eq!(Gaze::qualify_name(Some(""), Some("x")), ".x");
}

fn schema_frame(message_type: &[u8], raw: &str) -> Vec<u8> {
    let mut f = vec![7u8];
    f.extend_from_slice(message_type);
    f.extend_from_slice(&(raw.len() as u32).to_le_bytes());
    f.extend_from_slice(raw.as_bytes());
    f
}

#[test]
fn add_type_registers_and_announces_once() {
    let mut gaze = Gaze::new();
    let mut out: Vec<u8> = Vec::new();
    let message_type = gaze.add_type(USER_CREATED, &mut out).unwrap();
    let expected = Gaze::hash_message_type("my.company.user_created".to_string());
    assert_eq!(message_type, expected);
    assert_eq!(out, schema_frame(&expected, USER_CREATED));
    assert!(gaze.schema(&expected).is_some());

    let mut again: Vec<u8> = Vec::new();
    let second = gaze.add_type(USER_CREATED, &mut again).unwrap();
    assert_eq!(second, expected);
    assert!(again.is_empty());
}

#[test]
fn add_type_names_by_name_alone_without_namespace() {
    let mut gaze = Gaze::new();
    let mut out: Vec<u8> = Vec::new();
    let raw = r#"{"type": "record", "name": "hello", "fields": []}"#;
    let message_type = gaze.add_type(raw, &mut out).unwrap();
    assert_eq!(message_type, vec![249, 119, 0, 251]);
    assert_eq!(out, schema_frame(&message_type, raw));
}

#[test]
fn add_type_refuses_text_that_is_not_json() {
    let mut gaze = Gaze::new();
    let mut out: Vec<u8> = Vec::new();
    let r = gaze.add_type("{ not json", &mut out);
    assert!(matches!(r, Err(GazeError::InvalidDefinition(_))));
    assert!(out.is_empty());
}

#[test]
fn add_type_refuses_json_that_is_no_schema() {
    let mut gaze = Gaze::new();
    let mut out: Vec<u8> = Vec::new();
    let r = gaze.add_type(r#"{"type": "no such type", "name": "x"}"#, &mut out);
    assert!(matches!(r, Err(GazeError::InvalidSchema(_))));
    assert!(out.is_empty());
}

#[test]
fn register_type_with_a_parsed_schema() {
    let mut gaze = Gaze::new();
    let schema = avro_rs::Schema::parse_str(r#"{"type": "string"}"#).unwrap();
    let mut out: Vec<u8> = Vec::new();
    let mt = gaze.register_type("hello".to_string(), "raw", schema, &mut out);
    assert_eq!(mt, vec![249, 119, 0, 251]);
    assert_eq!(out, schema_frame(&mt, "raw"));
}

#[test]
fn publish_frames_the_message() {
    let mut gaze = Gaze::new();
    let mut out: Vec<u8> = Vec::new();
    let message_type = gaze.add_type(USER_CREATED, &mut out).unwrap();
    let mut frame: Vec<u8> = Vec::new();
    gaze.publish(b"payload".to_vec(), message_type.clone(), &mut frame).unwrap();
    assert_eq!(frame.len(), 1 + 6 + 4 + 4 + 7);
    assert_eq!(frame[0], 1);
    assert_eq!(frame[1] & 0xfc, 0xfc);
    assert_eq!(&frame[7..11], &message_type[..]);
    assert_eq!(&frame[11..15], &[7, 0, 0, 0]);
    assert_eq!(&frame[15..], b"payload");
}

#[test]
fn write_publish_layout() {
    let mut frame: Vec<u8> = vec![0xee];
    Gaze::write_publish(&mut frame, &[1, 2, 3, 4, 5, 6], &[9, 9, 9, 9], b"ab");
    assert_eq!(frame, vec![0xee, 1, 1, 2, 3, 4, 5, 6, 9, 9, 9, 9, 2, 0, 0, 0, b'a', b'b']);
}

fn filter_of(text: &str) -> Filter {
    let value: serde_json::Value = serde_json::from_str(text).unwrap();
    Filter::from_json(&value)
}

#[test]
fn filter_from_json_shape_and_text() {
    let f = filter_of(r#"{ "a" : 1 }"#);
    assert_eq!(f.kind, JsonKind::Object);
    assert_eq!(f.text, r#"{"a":1}"#);
    assert_eq!(filter_of("[1, 2]").kind, JsonKind::Array);
    assert_eq!(filter_of("\"x\"").kind, JsonKind::Other);
    assert_eq!(filter_of("null").kind, JsonKind::Other);
}

#[test]
fn subscribe_with_a_library_filter() {
    let mut reader: Reader<u32, u32> = Reader::new();
    let mut out: Vec<u8> = Vec::new();
    let f = Filter { kind: JsonKind::Object, text: "{}".to_string() };
    assert!(Gaze::subscribe(&mut reader, f, 0, 9, &mut out).is_ok());
    assert_eq!(&out[11..], &[4, 0, 0, 0, b'[', b'{', b'}', b']']);
}

#[test]
fn subscribe_wraps_an_object_filter_in_an_array() {
    let mut reader: Reader<u32, u32> = Reader::new();
    let mut out: Vec<u8> = Vec::new();
    let r = Gaze::subscribe(&mut reader, filter_of(r#"{"$type":"x"}"#), 0x0102_0304_0506_0708, 5, &mut out);
    assert!(r.is_ok());
    let text = br#"[{"$type":"x"}]"#;
    assert_eq!(out[0], 3);
    assert_eq!(&out[1..7], &[6, 5, 4, 3, 2, 1]);
    let id = out[7..11].to_vec();
    assert_eq!(&out[11..15], &(text.len() as u32).to_le_bytes());
    assert_eq!(&out[15..], &text[..]);
    assert_eq!(reader.subscription(&id), Some(&5));
}

#[test]
fn subscribe_sends_an_array_filter_as_it_is() {
    let mut reader: Reader<u32, u32> = Reader::new();
    let mut out: Vec<u8> = Vec::new();
    let r = Gaze::subscribe(&mut reader, filter_of(r#"[{"a":1},{"b":2}]"#), 0, 5, &mut out);
    assert!(r.is_ok());
    let text = br#"[{"a":1},{"b":2}]"#;
    assert_eq!(&out[15..], &text[..]);
}

#[test]
fn subscribe_refuses_other_filters_after_the_head() {
    let mut reader: Reader<u32, u32> = Reader::new();
    let mut out: Vec<u8> = Vec::new();
    let r = Gaze::subscribe(&mut reader, filter_of("42"), 0, 5, &mut out);
    assert!(matches!(r, Err(GazeError::InvalidFilter)));
    assert_eq!(out.len(), 1 + 6 + 4);
    assert_eq!(out[0], 3);
    let id = out[7..11].to_vec();
    assert_eq!(reader.subscription(&id), None);
}

#[test]
fn finish_subscription_by_filter_shape() {
    let mut reader: Reader<u32, u32> = Reader::new();
    let mut out: Vec<u8> = vec![0xee];
    let r = Gaze::finish_subscription(&mut reader, vec![1, 2, 3, 4], JsonKind::Other, "null", 1, &mut out);
    assert!(matches!(r, Err(GazeError::InvalidFilter)));
    assert_eq!(out, vec![0xee]);
    assert_eq!(reader.subscription(&[1, 2, 3, 4]), None);

    let r = Gaze::finish_subscription(&mut reader, vec![1, 2, 3, 4], JsonKind::Object, r#"{"k":true}"#, 2, &mut out);
    assert!(r.is_ok());
    let text = br#"[{"k":true}]"#;
    let mut expected = vec![0xee];
    expected.extend_from_slice(&(text.len() as u32).to_le_bytes());
    expected.extend_from_slice(text);
    assert_eq!(out, expected);
    assert_eq!(reader.subscription(&[1, 2, 3, 4]), Some(&2));

    let mut out: Vec<u8> = Vec::new();
    let r = Gaze::finish_subscription(&mut reader, vec![5, 5, 5, 5], JsonKind::Array, "[1,2]", 3, &mut out);
    assert!(r.is_ok());
    assert_eq!(out, vec![5, 0, 0, 0, b'[', b'1', b',', b'2', b']']);
}

#[test]
fn add_type_refuses_a_union_inside_a_union() {
    let mut gaze = Gaze::new();
    let mut out: Vec<u8> = Vec::new();
    let r = gaze.add_type(r#"{"type": ["null", ["int", "string"]]}"#, &mut out);
    assert!(matches!(r, Err(GazeError::InvalidSchema(_))));
    assert!(out.is_empty());
}

#[test]
fn add_type_keeps_namespace_and_name_apart() {
    let mut gaze = Gaze::new();
    let mut out: Vec<u8> = Vec::new();
    let raw = r#"{"type": "record", "namespace": "a", "name": "b", "fields": []}"#;
    let mt = gaze.add_type(raw, &mut out).unwrap();
    assert_eq!(mt, Gaze::hash_message_type("a.b".to_string()));
    assert_ne!(mt, Gaze::hash_message_type("b.a".to_string()));
}

