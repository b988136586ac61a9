use gaze::client::command::Command;
use gaze::client::protocol::{ClientReader, ReadProtocol, WriteProtocol};
use gaze::client::reader::{decode_incoming, Answer, Decoded, Reader};
use gaze::client::time::{write_readable_digits, SmallestReadableString};
use gaze::client::Gaze;
use gaze::gaze::GazeError;
use std::convert::TryFrom;
use std::time::Duration;

#[test]
fn client_command_bytes() {
    let pairs = [
        (Command::Publish, 0x07u8),
        (Command::Subscribe, 0x05),
        (Command::Ack, 0x06),
        (Command::Nack, 0x15),
        (Command::AddModel, 0x16),
        (Command::GetModels, 0x17),
    ];
    for (c, b) in pairs.iter() {
        assert_eq!(c.as_byte(), *b);
        assert_eq!(Command::try_from(*b), Ok(*c));
        assert_eq!(Command::from_byte(*b), Some(*c));
    }
    assert_eq!(
        Command::try_from(0x01),
        Err("Cannot convert u8 to Command: byte not valid")
    );
    assert_eq!(Command::from_byte(0x00), None);
}

#[test]
fn client_acknowledgements_write_the_id_alone() {
    let mut out: Vec<u8> = Vec::new();
    out.write_command(Command::Publish);
    out.write_ack(vec![1, 2]);
    out.write_nack(vec![3]);
    out.write_id(&[4]);
    assert_eq!(out, vec![7, 1, 2, 3, 4]);
}

#[test]
fn client_reads_back_command_and_ack() {
    let mut out: Vec<u8> = Vec::new();
    out.write_command(Command::Ack);
    out.write_id(b"0123456789");
    let mut reader = ClientReader::new(&out);
    assert_eq!(reader.read_command(), Ok(Command::Ack));
    assert_eq!(reader.read_ack(), b"0123456789".to_vec());
    assert_eq!(reader.remaining(), 0);
    assert_eq!(reader.read_command(), Err(()));
}

#[test]
fn client_decode_answers() {
    let mut bytes = vec![0x06u8];
    bytes.extend_from_slice(b"abcdefghij");
    assert_eq!(
        decode_incoming(&bytes),
        Decoded::Frame(11, Answer { command: Command::Ack, id: b"abcdefghij".to_vec() })
    );
    assert_eq!(decode_incoming(&bytes[..5]), Decoded::Incomplete);
    assert_eq!(decode_incoming(&[]), Decoded::Incomplete);
    assert_eq!(decode_incoming(&[0x99]), Decoded::InvalidCommand(0x99));
    assert_eq!(decode_incoming(&[0x17]), Decoded::Stop(Command::GetModels));
    assert_eq!(decode_incoming(&[0x07]), Decoded::Stop(Command::Publish));
}

#[test]
fn client_reader_answers() {
    let mut reader: Reader<u32> = Reader::new();
    reader.expect_ack(b"aaaaaaaaaa", 1);
    reader.expect_ack(b"bbbbbbbbbb", 2);
    reader.expect_ack(b"cccccccccc", 3);
    assert_eq!(reader.handle(Answer { command: Command::Ack, id: b"aaaaaaaaaa".to_vec() }), (1, true));
    assert_eq!(reader.handle(Answer { command: Command::Nack, id: b"bbbbbbbbbb".to_vec() }), (2, false));
    assert_eq!(reader.handle(Answer { command: Command::AddModel, id: b"cccccccccc".to_vec() }), (3, false));
    assert!(!reader.is_pending(b"aaaaaaaaaa"));
}

#[test]
fn readable_digits_of_microseconds() {
    let mut result = [0u8; 6];
    write_readable_digits(123_456, &mut result);
    assert_eq!(result, [b'7', b'W', 0, 0, 0, 0]);
    let mut result = [0u8; 6];
    write_readable_digits(999_999, &mut result);
    assert_eq!(result, [b'9', b'C', b'4', 0, 0, 0]);
    let mut result = [1u8; 6];
    write_readable_digits(62, &mut result);
    assert_eq!(result, [1u8; 6]);
}

#[test]
fn duration_readable_string_cases() {
    let mut result = [0u8; 6];
    let s = Duration::new(7, 999_999_999).to_smallest_readable_string(&mut result);
    assert_eq!(s, &[0x39, 0x43, 0x34, 0, 0, 0]);
    let mut result = [0u8; 6];
    let s = Duration::from_micros(100).to_smallest_readable_string(&mut result);
    assert_eq!(s, &[0x31, 0, 0, 0, 0, 0]);
    let mut result = [0u8; 6];
    let s = Duration::from_micros(62).to_smallest_readable_string(&mut result);
    assert_eq!(s, &[0, 0, 0, 0, 0, 0]);
    let mut r1 = [0u8; 6];
    let mut r2 = [0u8; 6];
    let a = Duration::new(3, 123_456_001).to_smallest_readable_string(&mut r1).to_vec();
    let b = Duration::new(99, 123_456_999).to_smallest_readable_string(&mut r2).to_vec();
    assert_eq!(a, b);
}

#[test]
fn client_message_id_of_digits_and_chars() {
    let id = Gaze::message_id_of(7_999_999_999, b"abcd");
    assert_eq!(id, vec![0x39, 0x43, 0x34, 0, 0, 0, 0x61, 0x62, 0x63, 0x64]);
}

#[test]
fn client_publish_writes_command_and_id() {
    let mut gaze = Gaze::new();
    let raw = r#"{"type": "record", "name": "hello", "fields": [{"name": "age", "type": "int"}]}"#;
    gaze.add_model(raw).unwrap();
    let mut out: Vec<u8> = vec![0xee];
    let id = gaze.publish("hello", &mut out).unwrap();
    assert_eq!(id.len(), 10);
    assert_eq!(out[0], 0xee);
    assert_eq!(out[1], 0x07);
    assert_eq!(&out[2..], &id[..]);
}

#[test]
fn duration_readable_string_uses_micros_within_the_second() {
    let mut result = [0u8; 6];
    let d = Duration::new(17, 123_456_789);
    let s = d.to_smallest_readable_string(&mut result);
    assert_eq!(s, &[b'7', b'W', 0, 0, 0, 0]);
}

#[test]
fn client_generated_ids_have_their_shape() {
    let id = Gaze::generate_id().unwrap();
    assert_eq!(id.len(), 10);
    assert!(id[6..].iter().all(|b| b.is_ascii_alphanumeric()));
    assert!(id[..6].iter().all(|b| *b == 0 || b.is_ascii_alphanumeric()));
}

#[test]
fn client_add_model_names_and_replaces() {
    let mut gaze = Gaze::new();
    let raw = r#"{"type": "record", "namespace": "my.company", "name": "user_created", "fields": []}"#;
    assert_eq!(gaze.add_model(raw).unwrap(), "my.company.user_created");
    assert!(gaze.model("my.company.user_created").is_some());
    assert!(gaze.model("user_created").is_none());
    assert_eq!(gaze.add_model(raw).unwrap(), "my.company.user_created");
    assert!(matches!(gaze.add_model("nope"), Err(GazeError::InvalidDefinition(_))));
    assert!(matches!(gaze.add_model(r#"{"type": 3}"#), Err(GazeError::InvalidSchema(_))));
}

#[test]
fn written_answer_decodes_back() {
    let mut out: Vec<u8> = Vec::new();
    out.write_command(Command::Nack);
    out.write_id(b"0000000000");
    out.push(0xff);
    assert_eq!(
        decode_incoming(&out),
        Decoded::Frame(11, Answer { command: Command::Nack, id: b"0000000000".to_vec() })
    );
}
