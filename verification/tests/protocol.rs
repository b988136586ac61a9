use gaze::command::Command;
use gaze::protocol::{ByteReader, ReadProtocol, WriteProtocol};
use gaze::wire::{u32_from_le, u32_le_bytes, u64_le_bytes};
use std::convert::TryFrom;

const ALL: [Command; 8] = [
    Command::Message,
    Command::SubscriptionMessage,
    Command::Subscribe,
    Command::Unsubscribe,
    Command::MessageAck,
    Command::MessageNack,
    Command::Schema,
    Command::NoSchema,
];

#[test]
fn command_bytes_are_one_to_eight() {
    for (i, c) in ALL.iter().enumerate() {
        assert_eq!(c.as_byte(), (i + 1) as u8);
    }
}

#[test]
fn command_try_from_decodes_every_command_byte() {
    for c in ALL.iter() {
        assert_eq!(Command::try_from(c.as_byte()), Ok(*c));
    }
}

#[test]
fn command_try_from_refuses_other_bytes() {
    for b in [0u8, 9, 0x15, 0x7f, 0xff].iter() {
        assert_eq!(
            Command::try_from(*b),
            Err("Cannot convert u8 to Command: byte not valid")
        );
    }
}

#[test]
fn little_endian_bytes() {
    assert_eq!(u32_le_bytes(0x0403_0201), vec![1, 2, 3, 4]);
    assert_eq!(u32_le_bytes(0), vec![0, 0, 0, 0]);
    assert_eq!(u32_le_bytes(u32::MAX), vec![0xff, 0xff, 0xff, 0xff]);
    assert_eq!(
        u64_le_bytes(0x0102_0304_0506_0708),
        vec![8, 7, 6, 5, 4, 3, 2, 1]
    );
    assert_eq!(u32_from_le(&[9, 1, 2, 3, 4], 1), 0x0403_0201);
    assert_eq!(u32_from_le(&u32_le_bytes(123_456_789), 0), 123_456_789);
}

#[test]
fn write_command_appends_its_byte() {
    let mut out: Vec<u8> = vec![0xaa];
    out.write_command(Command::Schema);
    out.write_command(Command::Subscribe);
    assert_eq!(out, vec![0xaa, 7, 3]);
}

#[test]
fn write_size_writes_four_little_endian_bytes() {
    let mut out: Vec<u8> = Vec::new();
    out.write_size(300);
    assert_eq!(out, vec![44, 1, 0, 0]);
}

#[test]
fn write_size_cuts_to_32_bits() {
    let mut out: Vec<u8> = Vec::new();
    out.write_size(((1u64 << 32) + 5) as usize);
    assert_eq!(out, vec![5, 0, 0, 0]);
}

#[test]
fn write_message_ack_and_nack() {
    let mut out: Vec<u8> = Vec::new();
    out.write_message_ack(vec![1, 2, 3, 4, 5, 6]);
    out.write_message_nack(vec![9]);
    out.write_id(&[7, 7]);
    assert_eq!(out, vec![5, 1, 2, 3, 4, 5, 6, 6, 9, 7, 7]);
}

#[test]
fn read_command_on_nothing_fails() {
    let bytes: [u8; 0] = [];
    let mut reader = ByteReader::new(&bytes);
    assert_eq!(reader.read_command(), Err(()));
    assert_eq!(reader.position(), 0);
}

#[test]
fn read_back_what_was_written() {
    let mut out: Vec<u8> = Vec::new();
    out.write_message_nack(vec![10, 11, 12, 13, 14, 15]);
    let payload = b"payload".to_vec();
    out.write_size(payload.len());
    out.write_id(&payload);
    out.write_command(Command::NoSchema);

    let mut reader = ByteReader::new(&out);
    assert_eq!(reader.read_command(), Ok(Command::MessageNack));
    assert_eq!(reader.read_ack(), vec![10, 11, 12, 13, 14, 15]);
    assert_eq!(reader.read_message(), (payload.clone(), 7));
    assert_eq!(reader.read_command(), Ok(Command::NoSchema));
    assert_eq!(reader.remaining(), 0);
    assert_eq!(reader.read_command(), Err(()));
}

#[test]
fn byte_reader_peeks_without_reading() {
    let bytes = [4u8, 0, 0, 0, 1, 2, 3, 4];
    let mut reader = ByteReader::new(&bytes);
    assert_eq!(reader.peek(), Some(4));
    assert_eq!(reader.peek_u32(), 4);
    assert_eq!(reader.read_bytes(2), vec![4, 0]);
    assert_eq!(reader.position(), 2);
    assert_eq!(reader.remaining(), 6);
}

#[test]
fn empty_message_reads_back_empty() {
    let bytes = [0u8, 0, 0, 0, 42];
    let mut reader = ByteReader::new(&bytes);
    assert_eq!(reader.read_message(), (Vec::new(), 0));
    assert_eq!(reader.remaining(), 1);
}
