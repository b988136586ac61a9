use gaze::command::Command;
use gaze::ids::{bytes_equal, IdMap};
use gaze::protocol::WriteProtocol;
use gaze::reader::{decode_incoming, Action, Decoded, Incoming, Reader};

fn subscription_frame(message: &[u8]) -> Vec<u8> {
    let mut f = vec![2u8];
    f.extend_from_slice(&[1, 2, 3, 4, 5, 6]);
    f.extend_from_slice(&[7, 7, 7, 7]);
    f.extend_from_slice(&[9, 9, 9, 9]);
    f.extend_from_slice(&(message.len() as u32).to_le_bytes());
    f.extend_from_slice(message);
    f
}

#[test]
fn decode_nothing_is_incomplete() {
    assert_eq!(decode_incoming(&[]), Decoded::Incomplete);
}

#[test]
fn decode_invalid_command_byte() {
    assert_eq!(decode_incoming(&[0x42, 1, 2]), Decoded::InvalidCommand(0x42));
}

#[test]
fn decode_stop_commands() {
    assert_eq!(decode_incoming(&[1]), Decoded::Stop(Command::Message));
    assert_eq!(decode_incoming(&[3, 0]), Decoded::Stop(Command::Subscribe));
    assert_eq!(decode_incoming(&[4]), Decoded::Stop(Command::Unsubscribe));
    assert_eq!(decode_incoming(&[8]), Decoded::Stop(Command::NoSchema));
}

#[test]
fn decode_acknowledgements() {
    let bytes = [5u8, 1, 2, 3, 4, 5, 6, 99];
    assert_eq!(
        decode_incoming(&bytes),
        Decoded::Frame(7, Incoming::MessageAck { id: vec![1, 2, 3, 4, 5, 6] })
    );
    let bytes = [6u8, 1, 2, 3, 4, 5, 6];
    assert_eq!(
        decode_incoming(&bytes),
        Decoded::Frame(7, Incoming::MessageNack { id: vec![1, 2, 3, 4, 5, 6] })
    );
    let bytes = [7u8, 6, 5, 4, 3, 2, 1];
    assert_eq!(
        decode_incoming(&bytes),
        Decoded::Frame(7, Incoming::Schema { id: vec![6, 5, 4, 3, 2, 1] })
    );
}

#[test]
fn decode_short_acknowledgement_is_incomplete() {
    assert_eq!(decode_incoming(&[5, 1, 2, 3, 4, 5]), Decoded::Incomplete);
}

#[test]
fn decode_subscription_message() {
    let mut bytes = subscription_frame(b"hello");
    let n = bytes.len();
    bytes.push(5);
    assert_eq!(
        decode_incoming(&bytes),
        Decoded::Frame(
            n,
            Incoming::SubscriptionMessage {
                id: vec![1, 2, 3, 4, 5, 6],
                message_type: vec![7, 7, 7, 7],
                subscription_id: vec![9, 9, 9, 9],
                message: b"hello".to_vec(),
            }
        )
    );
}

#[test]
fn decode_subscription_message_grows_until_complete() {
    let bytes = subscription_frame(b"abc");
    for k in 0..bytes.len() {
        assert_eq!(decode_incoming(&bytes[..k]), Decoded::Incomplete, "prefix {}", k);
    }
    assert!(matches!(decode_incoming(&bytes), Decoded::Frame(22, _)));
}

#[test]
fn ids_compare_bytewise() {
    assert!(bytes_equal(&[1, 2, 3], &[1, 2, 3]));
    assert!(!bytes_equal(&[1, 2, 3], &[1, 2]));
    assert!(!bytes_equal(&[1, 2, 3], &[1, 2, 4]));
    assert!(bytes_equal(&[], &[]));
}

#[test]
fn id_map_insert_replace_remove() {
    let mut m: IdMap<u32> = IdMap::new();
    assert!(!m.contains(&[1]));
    m.insert(vec![1], 10);
    m.insert(vec![2, 2], 20);
    m.insert(vec![1], 11);
    assert_eq!(m.get(&[1]), Some(&11));
    assert_eq!(m.get(&[2, 2]), Some(&20));
    assert_eq!(m.get(&[2]), None);
    assert_eq!(m.remove(&[1]), Some(11));
    assert_eq!(m.remove(&[1]), None);
    assert_eq!(m.take(&[2, 2]), 20);
    assert!(!m.contains(&[2, 2]));
}

#[test]
fn acknowledgement_releases_the_expected_sender() {
    let mut reader: Reader<u32, u32> = Reader::new();
    reader.expect_ack(&[1, 1, 1, 1, 1, 1], 7);
    reader.expect_ack(&[2, 2, 2, 2, 2, 2], 8);
    assert!(reader.is_pending(&[1, 1, 1, 1, 1, 1]));
    let action = reader.handle(Incoming::MessageAck { id: vec![1, 1, 1, 1, 1, 1] });
    assert_eq!(action, Action::Release(7));
    assert!(!reader.is_pending(&[1, 1, 1, 1, 1, 1]));
    assert!(reader.is_pending(&[2, 2, 2, 2, 2, 2]));
}

#[test]
fn refusal_answers_the_expected_sender() {
    let mut reader: Reader<u32, u32> = Reader::new();
    reader.expect_ack(&[3, 3, 3, 3, 3, 3], 9);
    let action = reader.handle(Incoming::MessageNack { id: vec![3, 3, 3, 3, 3, 3] });
    assert_eq!(action, Action::Refuse(9));
    assert!(!reader.is_pending(&[3, 3, 3, 3, 3, 3]));
}

#[test]
fn schema_frames_are_skipped() {
    let mut reader: Reader<u32, u32> = Reader::new();
    reader.expect_ack(&[3, 3, 3, 3, 3, 3], 9);
    let action = reader.handle(Incoming::Schema { id: vec![3, 3, 3, 3, 3, 3] });
    assert_eq!(action, Action::Skip);
    assert!(reader.is_pending(&[3, 3, 3, 3, 3, 3]));
}

#[test]
fn subscription_messages_go_to_known_subscriptions_only() {
    let mut reader: Reader<u32, u32> = Reader::new();
    reader.add_subscription(vec![9, 9, 9, 9], 1);
    assert_eq!(reader.subscription(&[9, 9, 9, 9]), Some(&1));
    assert_eq!(reader.subscription(&[8, 8, 8, 8]), None);
    let delivered = reader.handle(Incoming::SubscriptionMessage {
        id: vec![1, 2, 3, 4, 5, 6],
        message_type: vec![7, 7, 7, 7],
        subscription_id: vec![9, 9, 9, 9],
        message: b"m".to_vec(),
    });
    assert_eq!(
        delivered,
        Action::Deliver {
            subscription_id: vec![9, 9, 9, 9],
            message_type: vec![7, 7, 7, 7],
            message: b"m".to_vec(),
        }
    );
    let skipped = reader.handle(Incoming::SubscriptionMessage {
        id: vec![1, 2, 3, 4, 5, 6],
        message_type: vec![7, 7, 7, 7],
        subscription_id: vec![8, 8, 8, 8],
        message: b"m".to_vec(),
    });
    assert_eq!(skipped, Action::Skip);
}

#[test]
fn written_acknowledgement_decodes_back() {
    let mut out: Vec<u8> = Vec::new();
    out.write_message_ack(vec![6, 5, 4, 3, 2, 1]);
    out.push(0x01);
    assert_eq!(
        decode_incoming(&out),
        Decoded::Frame(7, Incoming::MessageAck { id: vec![6, 5, 4, 3, 2, 1] })
    );
}
