use vstd::prelude::*;

use crate::client::command::{command_byte, command_of_byte, Command};
use crate::client::protocol::{ClientReader, ReadProtocol, ACK_ID_LEN};
use crate::ids::IdMap;
use crate::protocol::append_bytes;

verus! {

/// A frame that answers a message the client sent: its command and the
/// message's id.
#[derive(Debug, PartialEq, Eq)]
pub struct Answer {
    pub command: Command,
    pub id: Vec<u8>,
}

/// The outcome of decoding the bytes that have arrived.
#[derive(Debug, PartialEq, Eq)]
pub enum Decoded {
    /// The bytes are the start of a frame that has not fully arrived.
    Incomplete,
    /// The first byte stands for no command.
    InvalidCommand(u8),
    /// The first byte is a command that ends the reading.
    Stop(Command),
    /// A whole answer, and how many bytes it took.
    Frame(usize, Answer),
}

/// The outcome of decoding, as byte strings.
pub enum DecodedAnswer {
    Incomplete,
    InvalidCommand(u8),
    Stop(Command),
    Frame(nat, Command, Seq<u8>),
}

impl Decoded {
    /// The outcome, as byte strings.
    pub open spec fn outcome(&self) -> DecodedAnswer {
        match self {
            Decoded::Incomplete => DecodedAnswer::Incomplete,
            Decoded::InvalidCommand(b) => DecodedAnswer::InvalidCommand(*b),
            Decoded::Stop(c) => DecodedAnswer::Stop(*c),
            Decoded::Frame(n, a) => DecodedAnswer::Frame(*n as nat, a.command, a.id@),
        }
    }
}

/// Whether the client acts on frames of `c`: acknowledgements, refusals and
/// model additions, each followed by an id.
pub open spec fn is_answer(c: Command) -> bool {
    c == Command::Ack || c == Command::Nack || c == Command::AddModel
}

/// How the frame in front of `s` decodes.
pub open spec fn decode_answer(s: Seq<u8>) -> DecodedAnswer {
    if s.len() == 0 {
        DecodedAnswer::Incomplete
    } else {
        match command_of_byte(s[0]) {
            None => DecodedAnswer::InvalidCommand(s[0]),
            Some(c) => {
                if is_answer(c) {
                    if s.len() < 1 + ACK_ID_LEN {
                        DecodedAnswer::Incomplete
                    } else {
                        DecodedAnswer::Frame(
                            (1 + ACK_ID_LEN) as nat,
                            c,
                            s.subrange(1, 1 + ACK_ID_LEN),
                        )
                    }
                } else {
                    DecodedAnswer::Stop(c)
                }
            },
        }
    }
}

/// Decodes the frame in front of the bytes that have arrived.
pub fn decode_incoming(bytes: &[u8]) -> (d: Decoded)
    ensures
        d.outcome() == decode_answer(bytes@),
{
    let mut reader = ClientReader::new(bytes);
    let first = match reader.peek() {
        None => return Decoded::Incomplete,
        Some(b) => b,
    };
    if Command::from_byte(first).is_none() {
        return Decoded::InvalidCommand(first);
    }
    let command = match reader.read_command() {
        Ok(c) => c,
        Err(_) => return Decoded::Incomplete,
    };
    let ghost s = bytes@;
    match command {
        Command::Ack | Command::Nack | Command::AddModel => {
            if reader.remaining() < ACK_ID_LEN {
                return Decoded::Incomplete;
            }
            let id = reader.read_ack();
            assert(id@ =~= s.subrange(1, 1 + ACK_ID_LEN));
            let n = reader.position();
            assert(reader.unread_bytes().len() == s.len() - 1 - ACK_ID_LEN);
            Decoded::Frame(n, Answer { command, id })
        },
        _ => Decoded::Stop(command),
    }
}

/// Once an answer, a refusal or a stop is decoded from what has arrived,
/// more bytes arriving do not change it.
pub proof fn lemma_decode_answer_stable(s: Seq<u8>, t: Seq<u8>)
    requires
        !(decode_answer(s) is Incomplete),
    ensures
        decode_answer(s + t) == decode_answer(s),
{
    let st = s + t;
    assert(st[0] == s[0]);
    if s.len() >= 1 + ACK_ID_LEN {
        assert(st.subrange(1, 1 + ACK_ID_LEN) =~= s.subrange(1, 1 + ACK_ID_LEN));
    }
}

/// An answer frame, its command byte followed by an id of the
/// acknowledgement length, decodes back to that command and id, whatever
/// follows it.
pub proof fn law_written_answer_decodes(command: Command, id: Seq<u8>, rest: Seq<u8>)
    requires
        is_answer(command),
        id.len() == ACK_ID_LEN,
    ensures
        decode_answer(seq![command_byte(command)] + id + rest) == DecodedAnswer::Frame(
            (1 + ACK_ID_LEN) as nat,
            command,
            id,
        ),
{
    let s = seq![command_byte(command)] + id + rest;
    assert(s.subrange(1, 1 + ACK_ID_LEN) =~= id);
}

/// The senders that wait for the answers to the client's messages, by
/// message id.
pub struct Reader<P> {
    pending_acknowledgements: IdMap<P>,
}

impl<P> Reader<P> {
    /// The senders waiting for answers, by message id.
    pub closed spec fn pending(&self) -> Map<Seq<u8>, P> {
        self.pending_acknowledgements.view()
    }

    /// Bookkeeping with nothing pending.
    pub fn new() -> (reader: Reader<P>)
        ensures
            reader.pending() == Map::<Seq<u8>, P>::empty(),
    {
        Reader { pending_acknowledgements: IdMap::new() }
    }

    /// Waits for the answer to the message `id` with `sender`, in place of
    /// any sender that waited for it before.
    pub fn expect_ack(&mut self, id: &[u8], sender: P)
        ensures
            final(self).pending() == old(self).pending().insert(id@, sender),
    {
        let mut key: Vec<u8> = Vec::new();
        append_bytes(&mut key, id);
        assert(key@ =~= id@);
        self.pending_acknowledgements.insert(key, sender);
    }

    /// Whether the answer to the message `id` is awaited.
    pub fn is_pending(&self, id: &[u8]) -> (b: bool)
        ensures
            b == self.pending().contains_key(id@),
    {
        self.pending_acknowledgements.contains(id)
    }

    /// Takes the sender that waits for `answer` and says what to send on
    /// it: `true` for an acknowledgement, `false` for a refusal or a model
    /// addition. The answered message must be awaited.
    pub fn handle(&mut self, answer: Answer) -> (r: (P, bool))
        requires
            old(self).pending().contains_key(answer.id@),
            is_answer(answer.command),
        ensures
            r.0 == old(self).pending()[answer.id@],
            r.1 == (answer.command == Command::Ack),
            final(self).pending() == old(self).pending().remove(answer.id@),
    {
        let sender = self.pending_acknowledgements.take(answer.id.as_slice());
        let acknowledged = match answer.command {
            Command::Ack => true,
            _ => false,
        };
        (sender, acknowledged)
    }
}

} // verus!
