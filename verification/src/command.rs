use vstd::prelude::*;

verus! {

/// The commands of the Gaze wire protocol. Each one travels as a single
/// byte in front of its frame.
#[derive(Debug, Clone, Copy, PartialEq, Eq, Structural)]
pub enum Command {
    Message,
    SubscriptionMessage,
    Subscribe,
    Unsubscribe,
    MessageAck,
    MessageNack,
    Schema,
    NoSchema,
}

/// The byte that stands for `c` on the wire.
pub open spec fn command_byte(c: Command) -> u8 {
    match c {
        Command::Message => 0x01,
        Command::SubscriptionMessage => 0x02,
        Command::Subscribe => 0x03,
        Command::Unsubscribe => 0x04,
        Command::MessageAck => 0x05,
        Command::MessageNack => 0x06,
        Command::Schema => 0x07,
        Command::NoSchema => 0x08,
    }
}

/// The command that the byte `b` stands for, if any.
pub open spec fn command_of_byte(b: u8) -> Option<Command> {
    if b == 0x01 {
        Some(Command::Message)
    } else if b == 0x02 {
        Some(Command::SubscriptionMessage)
    } else if b == 0x03 {
        Some(Command::Subscribe)
    } else if b == 0x04 {
        Some(Command::Unsubscribe)
    } else if b == 0x05 {
        Some(Command::MessageAck)
    } else if b == 0x06 {
        Some(Command::MessageNack)
    } else if b == 0x07 {
        Some(Command::Schema)
    } else if b == 0x08 {
        Some(Command::NoSchema)
    } else {
        None
    }
}

/// Whether `b` is the byte of some command.
pub open spec fn is_command_byte(b: u8) -> bool {
    command_of_byte(b) is Some
}

impl Command {
    /// The byte that stands for this command on the wire.
    pub fn as_byte(&self) -> (b: u8)
        ensures
            b == command_byte(*self),
    {
        match self {
            Command::Message => 0x01,
            Command::SubscriptionMessage => 0x02,
            Command::Subscribe => 0x03,
            Command::Unsubscribe => 0x04,
            Command::MessageAck => 0x05,
            Command::MessageNack => 0x06,
            Command::Schema => 0x07,
            Command::NoSchema => 0x08,
        }
    }
}

/// What `Command::try_from` answers for a byte that stands for no command.
pub open spec fn invalid_command_error() -> &'static str {
    "Cannot convert u8 to Command: byte not valid"
}

/// What `Command::try_from(b)` returns.
pub open spec fn command_try_from(b: u8) -> Result<Command, &'static str> {
    match command_of_byte(b) {
        Some(c) => Ok(c),
        None => Err(invalid_command_error()),
    }
}

impl TryFrom<u8> for Command {
    type Error = &'static str;

    /// Decodes a command byte; a byte that stands for no command is refused
    /// with a fixed message.
    fn try_from(byte: u8) -> (result: Result<Command, &'static str>)
        ensures
            result == command_try_from(byte),
    {
        match byte {
            0x01 => Ok(Command::Message),
            0x02 => Ok(Command::SubscriptionMessage),
            0x03 => Ok(Command::Subscribe),
            0x04 => Ok(Command::Unsubscribe),
            0x05 => Ok(Command::MessageAck),
            0x06 => Ok(Command::MessageNack),
            0x07 => Ok(Command::Schema),
            0x08 => Ok(Command::NoSchema),
            _ => Err("Cannot convert u8 to Command: byte not valid"),
        }
    }
}

impl vstd::std_specs::convert::TryFromSpecImpl<u8> for Command {
    open spec fn obeys_try_from_spec() -> bool {
        true
    }

    open spec fn try_from_spec(v: u8) -> Result<Command, &'static str> {
        command_try_from(v)
    }
}

/// Every command is decoded back from its own byte.
pub proof fn lemma_command_byte_roundtrip(c: Command)
    ensures
        command_of_byte(command_byte(c)) == Some(c),
        command_try_from(command_byte(c)) == Ok::<Command, &'static str>(c),
{
}

/// A byte that decodes to a command is that command's byte.
pub proof fn lemma_byte_command_roundtrip(b: u8)
    ensures
        command_of_byte(b) matches Some(c) ==> command_byte(c) == b,
{
}

/// Two commands share no byte.
pub proof fn lemma_command_byte_injective(c1: Command, c2: Command)
    ensures
        command_byte(c1) == command_byte(c2) ==> c1 == c2,
{
}

} // verus!
