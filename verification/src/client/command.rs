use vstd::prelude::*;

verus! {

/// The commands of the client's own wire protocol. Each one travels as a
/// single byte.
#[derive(Debug, Clone, Copy, PartialEq, Eq, Structural)]
pub enum Command {
    Publish,
    Subscribe,
    Ack,
    Nack,
    AddModel,
    GetModels,
}

/// The byte that stands for `c` on the wire.
pub open spec fn command_byte(c: Command) -> u8 {
    match c {
        Command::Publish => 0x07,
        Command::Subscribe => 0x05,
        Command::Ack => 0x06,
        Command::Nack => 0x15,
        Command::AddModel => 0x16,
        Command::GetModels => 0x17,
    }
}

/// The command that the byte `b` stands for, if any.
pub open spec fn command_of_byte(b: u8) -> Option<Command> {
    if b == 0x07 {
        Some(Command::Publish)
    } else if b == 0x05 {
        Some(Command::Subscribe)
    } else if b == 0x06 {
        Some(Command::Ack)
    } else if b == 0x15 {
        Some(Command::Nack)
    } else if b == 0x16 {
        Some(Command::AddModel)
    } else if b == 0x17 {
        Some(Command::GetModels)
    } else {
        None
    }
}

/// Whether `b` is the byte of some command.
pub open spec fn is_command_byte(b: u8) -> bool {
    command_of_byte(b) is Some
}

impl Command {
    /// The byte that stands for this command on the wire.
    pub fn as_byte(&self) -> (b: u8)
        ensures
            b == command_byte(*self),
    {
        match self {
            Command::Publish => 0x07,
            Command::Subscribe => 0x05,
            Command::Ack => 0x06,
            Command::Nack => 0x15,
            Command::AddModel => 0x16,
            Command::GetModels => 0x17,
        }
    }
}

impl Command {
    /// The command that `byte` stands for, if any.
    pub fn from_byte(byte: u8) -> (c: Option<Command>)
        ensures
            c == command_of_byte(byte),
    {
        match byte {
            0x07 => Some(Command::Publish),
            0x05 => Some(Command::Subscribe),
            0x06 => Some(Command::Ack),
            0x15 => Some(Command::Nack),
            0x16 => Some(Command::AddModel),
            0x17 => Some(Command::GetModels),
            _ => None,
        }
    }
}

/// What `Command::try_from` answers for a byte that stands for no command.
pub open spec fn invalid_command_error() -> &'static str {
    "Cannot convert u8 to Command: byte not valid"
}

/// What `Command::try_from(b)` returns.
pub open spec fn command_try_from(b: u8) -> Result<Command, &'static str> {
    match command_of_byte(b) {
        Some(c) => Ok(c),
        None => Err(invalid_command_error()),
    }
}

impl TryFrom<u8> for Command {
    type Error = &'static str;

    /// Decodes a command byte; a byte that stands for no command is refused
    /// with a fixed message.
    fn try_from(byte: u8) -> (result: Result<Command, &'static str>)
        ensures
            result == command_try_from(byte),
    {
        match byte {
            0x07 => Ok(Command::Publish),
            0x05 => Ok(Command::Subscribe),
            0x06 => Ok(Command::Ack),
            0x15 => Ok(Command::Nack),
            0x16 => Ok(Command::AddModel),
            0x17 => Ok(Command::GetModels),
            _ => Err("Cannot convert u8 to Command: byte not valid"),
        }
    }
}

impl vstd::std_specs::convert::TryFromSpecImpl<u8> for Command {
    open spec fn obeys_try_from_spec() -> bool {
        true
    }

    open spec fn try_from_spec(v: u8) -> Result<Command, &'static str> {
        command_try_from(v)
    }
}

/// Every command is decoded back from its own byte.
pub proof fn lemma_command_byte_roundtrip(c: Command)
    ensures
        command_of_byte(command_byte(c)) == Some(c),
        command_try_from(command_byte(c)) == Ok::<Command, &'static str>(c),
{
}

/// A byte that decodes to a command is that command's byte.
pub proof fn lemma_byte_command_roundtrip(b: u8)
    ensures
        command_of_byte(b) matches Some(c) ==> command_byte(c) == b,
{
}

/// Two commands share no byte.
pub proof fn lemma_command_byte_injective(c1: Command, c2: Command)
    ensures
        command_byte(c1) == command_byte(c2) ==> c1 == c2,
{
}

} // verus!
