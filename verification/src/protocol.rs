use vstd::prelude::*;

use crate::command::{command_byte, command_of_byte, is_command_byte, Command};
use crate::wire::{le_bytes_u32, le_u32_value, lemma_le_u32_roundtrip, u32_from_le, u32_le_bytes};

verus! {

/// Length of the id that follows an acknowledgement command.
pub const ACK_ID_LEN: usize = 6;

/// Whether `s` starts with a four-byte little-endian length followed by at
/// least that many bytes.
pub open spec fn holds_message(s: Seq<u8>) -> bool {
    s.len() >= 4 && s.len() - 4 >= le_u32_value(s)
}

/// Reading the protocol's frames from the bytes that arrive.
pub trait ReadProtocol {
    /// The bytes that have arrived and are not read yet.
    spec fn unread(&self) -> Seq<u8>;

    /// Reads one command byte. With nothing left to read it fails and reads
    /// nothing.
    fn read_command(&mut self) -> (result: Result<Command, ()>)
        requires
            old(self).unread().len() > 0 ==> is_command_byte(old(self).unread()[0]),
        ensures
            old(self).unread().len() == 0 ==> result is Err && final(self).unread()
                == old(self).unread(),
            old(self).unread().len() > 0 ==> result == Ok::<Command, ()>(
                command_of_byte(old(self).unread()[0])->0,
            ) && final(self).unread() == old(self).unread().drop_first(),
    ;

    /// Reads the id of an acknowledgement.
    fn read_ack(&mut self) -> (id: Vec<u8>)
        requires
            old(self).unread().len() >= ACK_ID_LEN,
        ensures
            id@ == old(self).unread().take(ACK_ID_LEN as int),
            final(self).unread() == old(self).unread().skip(ACK_ID_LEN as int),
    ;

    /// Reads a message: its four-byte little-endian length, then that many
    /// bytes. Returns the bytes and the length.
    fn read_message(&mut self) -> (result: (Vec<u8>, u32))
        requires
            holds_message(old(self).unread()),
        ensures
            result.1 == le_u32_value(old(self).unread()),
            result.0@ == old(self).unread().subrange(4, 4 + result.1),
            final(self).unread() == old(self).unread().skip(4 + result.1),
    ;
}

/// Writing the protocol's frames.
pub trait WriteProtocol {
    /// Everything written so far.
    spec fn written(&self) -> Seq<u8>;

    /// Writes the byte of `command`.
    fn write_command(&mut self, command: Command)
        ensures
            final(self).written() == old(self).written().push(command_byte(command)),
    ;

    /// Writes `size`, cut to 32 bits, as four little-endian bytes.
    fn write_size(&mut self, size: usize)
        ensures
            final(self).written() == old(self).written() + le_bytes_u32(size as u32),
    ;

    /// Writes a positive acknowledgement of the message `id`.
    fn write_message_ack(&mut self, id: Vec<u8>)
        ensures
            final(self).written() == old(self).written().push(command_byte(Command::MessageAck))
                + id@,
    ;

    /// Writes a negative acknowledgement of the message `id`.
    fn write_message_nack(&mut self, id: Vec<u8>)
        ensures
            final(self).written() == old(self).written().push(command_byte(Command::MessageNack))
                + id@,
    ;

    /// Writes the bytes of `id` as they are.
    fn write_id(&mut self, id: &[u8])
        ensures
            final(self).written() == old(self).written() + id@,
    ;
}

/// Appends `bytes` to `out`.
pub fn append_bytes(out: &mut Vec<u8>, bytes: &[u8])
    ensures
        final(out)@ == old(out)@ + bytes@,
{
    let mut i: usize = 0;
    while i < bytes.len()
        invariant
            i <= bytes@.len(),
            out@ == old(out)@ + bytes@.take(i as int),
        decreases bytes@.len() - i,
    {
        out.push(bytes[i]);
        i = i + 1;
        assert(out@ =~= old(out)@ + bytes@.take(i as int));
    }
    assert(bytes@.take(i as int) =~= bytes@);
}

/// A buffer that frames are written into, to be sent as they stand.
impl WriteProtocol for Vec<u8> {
    open spec fn written(&self) -> Seq<u8> {
        self@
    }

    fn write_command(&mut self, command: Command) {
        self.push(command.as_byte());
    }

    fn write_size(&mut self, size: usize) {
        let bytes = u32_le_bytes(size as u32);
        append_bytes(self, bytes.as_slice());
    }

    fn write_message_ack(&mut self, id: Vec<u8>) {
        self.write_command(Command::MessageAck);
        append_bytes(self, id.as_slice());
    }

    fn write_message_nack(&mut self, id: Vec<u8>) {
        self.write_command(Command::MessageNack);
        append_bytes(self, id.as_slice());
    }

    fn write_id(&mut self, id: &[u8]) {
        append_bytes(self, id);
    }
}

/// Reads frames from bytes that have arrived, front to back.
pub struct ByteReader<'a> {
    bytes: &'a [u8],
    pos: usize,
}

impl<'a> ByteReader<'a> {
    #[verifier::type_invariant]
    spec fn inv(self) -> bool {
        self.pos <= self.bytes@.len()
    }

    /// The bytes read so far.
    pub closed spec fn consumed(&self) -> nat {
        self.pos as nat
    }

    /// The bytes that the reader was made with.
    pub closed spec fn source(&self) -> Seq<u8> {
        self.bytes@
    }

    /// A reader at the start of `bytes`.
    pub fn new(bytes: &'a [u8]) -> (reader: ByteReader<'a>)
        ensures
            reader.unread() == bytes@,
            reader.source() == bytes@,
            reader.consumed() == 0,
    {
        let reader = ByteReader { bytes, pos: 0 };
        assert(bytes@.skip(0) =~= bytes@);
        reader
    }

    /// How many bytes have been read.
    pub fn position(&self) -> (n: usize)
        ensures
            n == self.consumed(),
            n <= self.source().len(),
            self.unread() == self.source().skip(n as int),
    {
        proof {
            use_type_invariant(self);
        }
        self.pos
    }

    /// How many bytes are left to read.
    pub fn remaining(&self) -> (n: usize)
        ensures
            n == self.unread().len(),
    {
        proof {
            use_type_invariant(self);
        }
        self.bytes.len() - self.pos
    }

    /// The next byte, without reading it.
    pub fn peek(&self) -> (b: Option<u8>)
        ensures
            self.unread().len() == 0 ==> b is None,
            self.unread().len() > 0 ==> b == Some(self.unread()[0]),
    {
        proof {
            use_type_invariant(self);
        }
        if self.pos < self.bytes.len() {
            Some(self.bytes[self.pos])
        } else {
            None
        }
    }

    /// The four-byte little-endian number in front, without reading it.
    pub fn peek_u32(&self) -> (x: u32)
        requires
            self.unread().len() >= 4,
        ensures
            x == le_u32_value(self.unread()),
    {
        proof {
            use_type_invariant(self);
        }
        u32_from_le(self.bytes, self.pos)
    }

    /// Reads the next `n` bytes.
    pub fn read_bytes(&mut self, n: usize) -> (bytes: Vec<u8>)
        requires
            old(self).unread().len() >= n,
        ensures
            bytes@ == old(self).unread().take(n as int),
            final(self).unread() == old(self).unread().skip(n as int),
            final(self).source() == old(self).source(),
            final(self).consumed() == old(self).consumed() + n,
    {
        proof {
            use_type_invariant(&*self);
        }
        let mut bytes: Vec<u8> = Vec::new();
        let start = self.pos;
        let len = self.bytes.len();
        let mut i: usize = 0;
        while i < n
            invariant
                i <= n,
                len == self.bytes@.len(),
                start + n <= len,
                bytes@ == self.bytes@.subrange(start as int, start + i),
            decreases n - i,
        {
            bytes.push(self.bytes[start + i]);
            i = i + 1;
            assert(bytes@ =~= self.bytes@.subrange(start as int, start + i));
        }
        self.pos = start + n;
        assert(bytes@ =~= old(self).unread().take(n as int));
        assert(self.bytes@.skip(self.pos as int) =~= old(self).unread().skip(n as int));
        bytes
    }
}

impl<'a> ReadProtocol for ByteReader<'a> {
    closed spec fn unread(&self) -> Seq<u8> {
        self.bytes@.skip(self.pos as int)
    }

    fn read_command(&mut self) -> (result: Result<Command, ()>)
        ensures
            final(self).source() == old(self).source(),
    {
        proof {
            use_type_invariant(&*self);
        }
        if self.pos < self.bytes.len() {
            let byte = self.bytes[self.pos];
            self.pos = self.pos + 1;
            assert(self.bytes@.skip(self.pos as int) =~= old(self).unread().drop_first());
            match Command::try_from(byte) {
                Ok(c) => Ok(c),
                Err(_) => Err(()),
            }
        } else {
            Err(())
        }
    }

    fn read_ack(&mut self) -> (id: Vec<u8>)
        ensures
            final(self).source() == old(self).source(),
    {
        self.read_bytes(ACK_ID_LEN)
    }

    fn read_message(&mut self) -> (result: (Vec<u8>, u32))
        ensures
            final(self).source() == old(self).source(),
    {
        let length = self.peek_u32();
        let _ = self.read_bytes(4);
        let message = self.read_bytes(length as usize);
        proof {
            assert(message@ =~= old(self).unread().subrange(4, 4 + length));
            assert(self.unread() =~= old(self).unread().skip(4 + length));
        }
        (message, length)
    }
}


/// What `write_command` writes, `read_command` reads back as the same
/// command, leaving what was written after it.
pub proof fn law_command_reads_back(command: Command, rest: Seq<u8>)
    ensures
        ({
            let s = seq![command_byte(command)] + rest;
            &&& s.len() > 0
            &&& is_command_byte(s[0])
            &&& command_of_byte(s[0]) == Some(command)
            &&& s.drop_first() == rest
        }),
{
    let s = seq![command_byte(command)] + rest;
    assert(s.drop_first() =~= rest);
}

/// What `write_message_ack` or `write_message_nack` writes for an id of the
/// acknowledgement length, `read_command` and then `read_ack` read back as
/// the same command and id, leaving what was written after it.
pub proof fn law_acknowledgement_reads_back(command: Command, id: Seq<u8>, rest: Seq<u8>)
    requires
        command == Command::MessageAck || command == Command::MessageNack,
        id.len() == ACK_ID_LEN,
    ensures
        ({
            let s = seq![command_byte(command)] + id + rest;
            &&& command_of_byte(s[0]) == Some(command)
            &&& s.drop_first().len() >= ACK_ID_LEN
            &&& s.drop_first().take(ACK_ID_LEN as int) == id
            &&& s.drop_first().skip(ACK_ID_LEN as int) == rest
        }),
{
    let s = seq![command_byte(command)] + id + rest;
    assert(s.drop_first() =~= id + rest);
    assert((id + rest).take(ACK_ID_LEN as int) =~= id);
    assert((id + rest).skip(ACK_ID_LEN as int) =~= rest);
}

/// What `write_size` of a payload's length, followed by the payload, writes,
/// `read_message` reads back as the payload and its length, leaving what was
/// written after it.
pub proof fn law_sized_message_reads_back(payload: Seq<u8>, rest: Seq<u8>)
    requires
        payload.len() <= u32::MAX,
    ensures
        ({
            let s = le_bytes_u32(payload.len() as u32) + payload + rest;
            &&& holds_message(s)
            &&& le_u32_value(s) == payload.len()
            &&& s.subrange(4, 4 + payload.len() as int) == payload
            &&& s.skip(4 + payload.len() as int) == rest
        }),
{
    let n = payload.len() as u32;
    lemma_le_u32_roundtrip(n);
    let s = le_bytes_u32(n) + payload + rest;
    assert(s[0] == le_bytes_u32(n)[0]);
    assert(s[1] == le_bytes_u32(n)[1]);
    assert(s[2] == le_bytes_u32(n)[2]);
    assert(s[3] == le_bytes_u32(n)[3]);
    assert(s.subrange(4, 4 + payload.len() as int) =~= payload);
    assert(s.skip(4 + payload.len() as int) =~= rest);
}

} // verus!
