use vstd::prelude::*;

use crate::command::{command_byte, command_of_byte, Command};
use crate::ids::IdMap;
use crate::protocol::{append_bytes, holds_message, ByteReader, ReadProtocol, ACK_ID_LEN};
use crate::wire::{le_bytes_u32, le_u32_value, lemma_le_u32_roundtrip};

verus! {

/// Length of the message id in front of a subscription message.
pub const MESSAGE_ID_LEN: usize = 6;

/// Length of the message type of a subscription message.
pub const MESSAGE_TYPE_LEN: usize = 4;

/// Length of the subscription id of a subscription message.
pub const SUBSCRIPTION_ID_LEN: usize = 4;

/// A frame that the server sends and the client acts on.
#[derive(Debug, PartialEq, Eq)]
pub enum Incoming {
    /// The message `id` was taken.
    MessageAck { id: Vec<u8> },
    /// The message `id` was refused.
    MessageNack { id: Vec<u8> },
    /// The schema `id` was taken.
    Schema { id: Vec<u8> },
    /// A message for a subscription.
    SubscriptionMessage {
        id: Vec<u8>,
        message_type: Vec<u8>,
        subscription_id: Vec<u8>,
        message: Vec<u8>,
    },
}

/// What a frame holds, as byte strings.
pub enum IncomingFrame {
    MessageAck(Seq<u8>),
    MessageNack(Seq<u8>),
    Schema(Seq<u8>),
    SubscriptionMessage(Seq<u8>, Seq<u8>, Seq<u8>, Seq<u8>),
}

impl Incoming {
    /// What the frame holds.
    pub open spec fn frame(&self) -> IncomingFrame {
        match self {
            Incoming::MessageAck { id } => IncomingFrame::MessageAck(id@),
            Incoming::MessageNack { id } => IncomingFrame::MessageNack(id@),
            Incoming::Schema { id } => IncomingFrame::Schema(id@),
            Incoming::SubscriptionMessage { id, message_type, subscription_id, message } =>
                IncomingFrame::SubscriptionMessage(
                id@,
                message_type@,
                subscription_id@,
                message@,
            ),
        }
    }
}

/// The outcome of decoding the bytes that have arrived.
#[derive(Debug, PartialEq, Eq)]
pub enum Decoded {
    /// The bytes are the start of a frame that has not fully arrived.
    Incomplete,
    /// The first byte stands for no command.
    InvalidCommand(u8),
    /// The first byte is a command that ends the reading.
    Stop(Command),
    /// A whole frame, and how many bytes it took.
    Frame(usize, Incoming),
}

/// The outcome of decoding, as byte strings.
pub enum DecodedFrame {
    Incomplete,
    InvalidCommand(u8),
    Stop(Command),
    Frame(nat, IncomingFrame),
}

impl Decoded {
    /// The outcome, as byte strings.
    pub open spec fn outcome(&self) -> DecodedFrame {
        match self {
            Decoded::Incomplete => DecodedFrame::Incomplete,
            Decoded::InvalidCommand(b) => DecodedFrame::InvalidCommand(*b),
            Decoded::Stop(c) => DecodedFrame::Stop(*c),
            Decoded::Frame(n, f) => DecodedFrame::Frame(*n as nat, f.frame()),
        }
    }
}

/// Where the length of the message stands in a subscription message frame.
pub open spec fn subscription_length_at() -> int {
    1 + MESSAGE_ID_LEN + MESSAGE_TYPE_LEN + SUBSCRIPTION_ID_LEN
}

/// How the frame in front of `s` decodes.
pub open spec fn decode_frame(s: Seq<u8>) -> DecodedFrame {
    if s.len() == 0 {
        DecodedFrame::Incomplete
    } else {
        match command_of_byte(s[0]) {
            None => DecodedFrame::InvalidCommand(s[0]),
            Some(c) => {
                if c == Command::MessageAck || c == Command::MessageNack || c == Command::Schema {
                    if s.len() < 1 + ACK_ID_LEN {
                        DecodedFrame::Incomplete
                    } else {
                        let id = s.subrange(1, 1 + ACK_ID_LEN);
                        DecodedFrame::Frame(
                            (1 + ACK_ID_LEN) as nat,
                            if c == Command::MessageAck {
                                IncomingFrame::MessageAck(id)
                            } else if c == Command::MessageNack {
                                IncomingFrame::MessageNack(id)
                            } else {
                                IncomingFrame::Schema(id)
                            },
                        )
                    }
                } else if c == Command::SubscriptionMessage {
                    let at = subscription_length_at();
                    if s.len() < at || !holds_message(s.skip(at)) {
                        DecodedFrame::Incomplete
                    } else {
                        let n = le_u32_value(s.skip(at));
                        DecodedFrame::Frame(
                            (at + 4 + n) as nat,
                            IncomingFrame::SubscriptionMessage(
                                s.subrange(1, 1 + MESSAGE_ID_LEN),
                                s.subrange(1 + MESSAGE_ID_LEN, 1 + MESSAGE_ID_LEN + MESSAGE_TYPE_LEN),
                                s.subrange(1 + MESSAGE_ID_LEN + MESSAGE_TYPE_LEN, at),
                                s.subrange(at + 4, at + 4 + n),
                            ),
                        )
                    }
                } else {
                    DecodedFrame::Stop(c)
                }
            },
        }
    }
}

/// Decodes the frame in front of the bytes that have arrived.
pub fn decode_incoming(bytes: &[u8]) -> (d: Decoded)
    ensures
        d.outcome() == decode_frame(bytes@),
{
    let mut reader = ByteReader::new(bytes);
    let first = match reader.peek() {
        None => return Decoded::Incomplete,
        Some(b) => b,
    };
    if Command::try_from(first).is_err() {
        return Decoded::InvalidCommand(first);
    }
    let command = match reader.read_command() {
        Ok(c) => c,
        Err(_) => return Decoded::Incomplete,
    };
    let ghost s = bytes@;
    assert(reader.unread() == s.drop_first());
    match command {
        Command::MessageAck | Command::MessageNack | Command::Schema => {
            if reader.remaining() < ACK_ID_LEN {
                return Decoded::Incomplete;
            }
            let id = reader.read_ack();
            assert(id@ =~= s.subrange(1, 1 + ACK_ID_LEN));
            let n = reader.position();
            assert(reader.unread().len() == s.len() - 1 - ACK_ID_LEN);
            let frame = match command {
                Command::MessageAck => Incoming::MessageAck { id },
                Command::MessageNack => Incoming::MessageNack { id },
                _ => Incoming::Schema { id },
            };
            Decoded::Frame(n, frame)
        },
        Command::SubscriptionMessage => {
            if reader.remaining() < MESSAGE_ID_LEN + MESSAGE_TYPE_LEN + SUBSCRIPTION_ID_LEN + 4 {
                return Decoded::Incomplete;
            }
            let id = reader.read_bytes(MESSAGE_ID_LEN);
            let message_type = reader.read_bytes(MESSAGE_TYPE_LEN);
            let subscription_id = reader.read_bytes(SUBSCRIPTION_ID_LEN);
            let ghost at = subscription_length_at();
            assert(reader.unread() =~= s.skip(at));
            let length = reader.peek_u32();
            if reader.remaining() - 4 < length as usize {
                return Decoded::Incomplete;
            }
            let (message, _) = reader.read_message();
            let n = reader.position();
            assert(reader.unread().len() == s.len() - (at + 4 + length));
            proof {
                assert(id@ =~= s.subrange(1, 1 + MESSAGE_ID_LEN));
                assert(message_type@ =~= s.subrange(
                    1 + MESSAGE_ID_LEN,
                    1 + MESSAGE_ID_LEN + MESSAGE_TYPE_LEN,
                ));
                assert(subscription_id@ =~= s.subrange(1 + MESSAGE_ID_LEN + MESSAGE_TYPE_LEN, at));
                assert(message@ =~= s.subrange(at + 4, at + 4 + length));
            }
            Decoded::Frame(n, Incoming::SubscriptionMessage { id, message_type, subscription_id, message })
        },
        _ => Decoded::Stop(command),
    }
}


/// Once a frame, a refusal or a stop is decoded from what has arrived, more
/// bytes arriving do not change it.
pub proof fn lemma_decode_frame_stable(s: Seq<u8>, t: Seq<u8>)
    requires
        !(decode_frame(s) is Incomplete),
    ensures
        decode_frame(s + t) == decode_frame(s),
{
    let st = s + t;
    assert(st[0] == s[0]);
    let at = subscription_length_at();
    if s.len() >= at + 4 {
        assert(st.skip(at).take(4) =~= s.skip(at).take(4));
        assert(st.skip(at)[0] == s.skip(at)[0]);
        assert(st.skip(at)[1] == s.skip(at)[1]);
        assert(st.skip(at)[2] == s.skip(at)[2]);
        assert(st.skip(at)[3] == s.skip(at)[3]);
    }
    if s.len() >= 1 + ACK_ID_LEN {
        assert(st.subrange(1, 1 + ACK_ID_LEN) =~= s.subrange(1, 1 + ACK_ID_LEN));
    }
    match decode_frame(s) {
        DecodedFrame::Frame(n, _) => {
            if command_of_byte(s[0]) == Some(Command::SubscriptionMessage) {
                let len = le_u32_value(s.skip(at));
                assert(st.subrange(1, 1 + MESSAGE_ID_LEN) =~= s.subrange(1, 1 + MESSAGE_ID_LEN));
                assert(st.subrange(1 + MESSAGE_ID_LEN, 1 + MESSAGE_ID_LEN + MESSAGE_TYPE_LEN)
                    =~= s.subrange(1 + MESSAGE_ID_LEN, 1 + MESSAGE_ID_LEN + MESSAGE_TYPE_LEN));
                assert(st.subrange(1 + MESSAGE_ID_LEN + MESSAGE_TYPE_LEN, at) =~= s.subrange(
                    1 + MESSAGE_ID_LEN + MESSAGE_TYPE_LEN,
                    at,
                ));
                assert(st.subrange(at + 4, at + 4 + len) =~= s.subrange(at + 4, at + 4 + len));
            }
        },
        _ => {},
    }
}

/// A decoded frame is decoded from its own bytes alone.
pub proof fn lemma_decode_frame_own_bytes(s: Seq<u8>)
    requires
        decode_frame(s) is Frame,
    ensures
        decode_frame(s)->Frame_0 <= s.len(),
        decode_frame(s.take(decode_frame(s)->Frame_0 as int)) == decode_frame(s),
{
    let n = decode_frame(s)->Frame_0;
    let at = subscription_length_at();
    let u = s.take(n as int);
    assert(u[0] == s[0]);
    if command_of_byte(s[0]) == Some(Command::SubscriptionMessage) {
        assert(u.skip(at).take(4) =~= s.skip(at).take(4));
        assert(u.skip(at)[0] == s.skip(at)[0]);
        assert(u.skip(at)[1] == s.skip(at)[1]);
        assert(u.skip(at)[2] == s.skip(at)[2]);
        assert(u.skip(at)[3] == s.skip(at)[3]);
        let len = le_u32_value(s.skip(at));
        assert(u.subrange(1, 1 + MESSAGE_ID_LEN) =~= s.subrange(1, 1 + MESSAGE_ID_LEN));
        assert(u.subrange(1 + MESSAGE_ID_LEN, 1 + MESSAGE_ID_LEN + MESSAGE_TYPE_LEN)
            =~= s.subrange(1 + MESSAGE_ID_LEN, 1 + MESSAGE_ID_LEN + MESSAGE_TYPE_LEN));
        assert(u.subrange(1 + MESSAGE_ID_LEN + MESSAGE_TYPE_LEN, at) =~= s.subrange(
            1 + MESSAGE_ID_LEN + MESSAGE_TYPE_LEN,
            at,
        ));
        assert(u.subrange(at + 4, at + 4 + len) =~= s.subrange(at + 4, at + 4 + len));
    } else {
        assert(u.subrange(1, 1 + ACK_ID_LEN) =~= s.subrange(1, 1 + ACK_ID_LEN));
    }
}

/// An acknowledgement frame as `write_message_ack` or `write_message_nack`
/// writes it decodes back to that acknowledgement of the same id, whatever
/// follows it.
pub proof fn law_written_acknowledgement_decodes(command: Command, id: Seq<u8>, rest: Seq<u8>)
    requires
        command == Command::MessageAck || command == Command::MessageNack,
        id.len() == ACK_ID_LEN,
    ensures
        decode_frame(seq![command_byte(command)] + id + rest) == DecodedFrame::Frame(
            (1 + ACK_ID_LEN) as nat,
            if command == Command::MessageAck {
                IncomingFrame::MessageAck(id)
            } else {
                IncomingFrame::MessageNack(id)
            },
        ),
{
    let s = seq![command_byte(command)] + id + rest;
    assert(s.subrange(1, 1 + ACK_ID_LEN) =~= id);
}

/// A subscription message frame, as the server writes it, decodes back to
/// its id, message type, subscription id and the whole message, whatever
/// follows it: the length in front of the message is the full four-byte
/// little-endian number.
pub proof fn law_written_subscription_message_decodes(
    id: Seq<u8>,
    message_type: Seq<u8>,
    subscription_id: Seq<u8>,
    message: Seq<u8>,
    rest: Seq<u8>,
)
    requires
        id.len() == MESSAGE_ID_LEN,
        message_type.len() == MESSAGE_TYPE_LEN,
        subscription_id.len() == SUBSCRIPTION_ID_LEN,
        message.len() <= u32::MAX,
    ensures
        decode_frame(
            seq![command_byte(Command::SubscriptionMessage)] + id + message_type + subscription_id
                + le_bytes_u32(message.len() as u32) + message + rest,
        ) == DecodedFrame::Frame(
            (19 + message.len()) as nat,
            IncomingFrame::SubscriptionMessage(id, message_type, subscription_id, message),
        ),
{
    let n = message.len() as u32;
    lemma_le_u32_roundtrip(n);
    let s = seq![command_byte(Command::SubscriptionMessage)] + id + message_type + subscription_id
        + le_bytes_u32(n) + message + rest;
    let at = subscription_length_at();
    assert(at == 15);
    assert(s.skip(at).take(4) =~= le_bytes_u32(n));
    assert(s.skip(at)[0] == le_bytes_u32(n)[0]);
    assert(s.skip(at)[1] == le_bytes_u32(n)[1]);
    assert(s.skip(at)[2] == le_bytes_u32(n)[2]);
    assert(s.skip(at)[3] == le_bytes_u32(n)[3]);
    assert(le_u32_value(s.skip(at)) == n);
    assert(s.subrange(1, 1 + MESSAGE_ID_LEN) =~= id);
    assert(s.subrange(1 + MESSAGE_ID_LEN, 1 + MESSAGE_ID_LEN + MESSAGE_TYPE_LEN) =~= message_type);
    assert(s.subrange(1 + MESSAGE_ID_LEN + MESSAGE_TYPE_LEN, at) =~= subscription_id);
    assert(s.subrange(at + 4, at + 4 + n) =~= message);
}

/// What the client does about a frame.
#[derive(Debug, PartialEq, Eq)]
pub enum Action<P> {
    /// Let go of the sender that waited for the acknowledged message.
    Release(P),
    /// Answer `false` on the sender that waited for the refused message.
    Refuse(P),
    /// Hand the message to the subscription `subscription_id`.
    Deliver { subscription_id: Vec<u8>, message_type: Vec<u8>, message: Vec<u8> },
    /// Nothing to do.
    Skip,
}

/// The client's bookkeeping of what it waits for: a sender of type `P` for
/// each message whose acknowledgement is pending, and a sender of type `S`
/// for each subscription.
pub struct Reader<P, S> {
    pending_acknowledgements: IdMap<P>,
    subscriptions: IdMap<S>,
}

impl<P, S> Reader<P, S> {
    /// The senders waiting for acknowledgements, by message id.
    pub closed spec fn pending(&self) -> Map<Seq<u8>, P> {
        self.pending_acknowledgements.view()
    }

    /// The senders of the subscriptions, by subscription id.
    pub closed spec fn subscribed(&self) -> Map<Seq<u8>, S> {
        self.subscriptions.view()
    }

    /// Bookkeeping with nothing pending and no subscription.
    pub fn new() -> (reader: Reader<P, S>)
        ensures
            reader.pending() == Map::<Seq<u8>, P>::empty(),
            reader.subscribed() == Map::<Seq<u8>, S>::empty(),
    {
        Reader { pending_acknowledgements: IdMap::new(), subscriptions: IdMap::new() }
    }

    /// Waits for the acknowledgement of the message `id` with `sender`, in
    /// place of any sender that waited for it before.
    pub fn expect_ack(&mut self, id: &[u8], sender: P)
        ensures
            final(self).pending() == old(self).pending().insert(id@, sender),
            final(self).subscribed() == old(self).subscribed(),
    {
        let mut key: Vec<u8> = Vec::new();
        append_bytes(&mut key, id);
        assert(key@ =~= id@);
        self.pending_acknowledgements.insert(key, sender);
    }

    /// Whether the acknowledgement of the message `id` is awaited.
    pub fn is_pending(&self, id: &[u8]) -> (b: bool)
        ensures
            b == self.pending().contains_key(id@),
    {
        self.pending_acknowledgements.contains(id)
    }

    /// Registers `sender` for the subscription `id`, in place of any sender
    /// registered for it before.
    pub fn add_subscription(&mut self, id: Vec<u8>, sender: S)
        ensures
            final(self).subscribed() == old(self).subscribed().insert(id@, sender),
            final(self).pending() == old(self).pending(),
    {
        self.subscriptions.insert(id, sender);
    }

    /// The sender of the subscription `id`, if there is one.
    pub fn subscription(&self, id: &[u8]) -> (r: Option<&S>)
        ensures
            self.subscribed().contains_key(id@) ==> r == Some(&self.subscribed()[id@]),
            !self.subscribed().contains_key(id@) ==> r is None,
    {
        self.subscriptions.get(id)
    }

    /// Decides what to do about `frame`. An acknowledgement, positive or
    /// negative, must be for a message that is awaited.
    pub fn handle(&mut self, frame: Incoming) -> (action: Action<P>)
        requires
            frame matches Incoming::MessageAck { id } ==> old(self).pending().contains_key(id@),
            frame matches Incoming::MessageNack { id } ==> old(self).pending().contains_key(id@),
        ensures
            final(self).subscribed() == old(self).subscribed(),
            match frame {
                Incoming::MessageAck { id } => {
                    &&& action == Action::Release(old(self).pending()[id@])
                    &&& final(self).pending() == old(self).pending().remove(id@)
                },
                Incoming::MessageNack { id } => {
                    &&& action == Action::Refuse(old(self).pending()[id@])
                    &&& final(self).pending() == old(self).pending().remove(id@)
                },
                Incoming::Schema { .. } => {
                    &&& action is Skip
                    &&& final(self).pending() == old(self).pending()
                },
                Incoming::SubscriptionMessage { id, message_type, subscription_id, message } => {
                    &&& final(self).pending() == old(self).pending()
                    &&& old(self).subscribed().contains_key(subscription_id@) ==> action
                        == Action::<P>::Deliver { subscription_id, message_type, message }
                    &&& !old(self).subscribed().contains_key(subscription_id@) ==> action is Skip
                },
            },
    {
        match frame {
            Incoming::MessageAck { id } => {
                Action::Release(self.pending_acknowledgements.take(id.as_slice()))
            },
            Incoming::MessageNack { id } => {
                Action::Refuse(self.pending_acknowledgements.take(id.as_slice()))
            },
            Incoming::Schema { .. } => Action::Skip,
            Incoming::SubscriptionMessage { id, message_type, subscription_id, message } => {
                if self.subscriptions.contains(subscription_id.as_slice()) {
                    Action::Deliver { subscription_id, message_type, message }
                } else {
                    Action::Skip
                }
            },
        }
    }
}

} // verus!
