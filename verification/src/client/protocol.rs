use vstd::prelude::*;

use crate::client::command::{command_byte, command_of_byte, is_command_byte, Command};
use crate::protocol::append_bytes;

verus! {

/// Length of the id that follows an acknowledgement.
pub const ACK_ID_LEN: usize = 10;

/// Reading the client protocol's frames from the bytes that arrive.
pub trait ReadProtocol {
    /// The bytes that have arrived and are not read yet.
    spec fn unread_bytes(&self) -> Seq<u8>;

    /// Reads one command byte. With nothing left to read it fails and reads
    /// nothing.
    fn read_command(&mut self) -> (result: Result<Command, ()>)
        requires
            old(self).unread_bytes().len() > 0 ==> is_command_byte(old(self).unread_bytes()[0]),
        ensures
            old(self).unread_bytes().len() == 0 ==> result is Err && final(self).unread_bytes()
                == old(self).unread_bytes(),
            old(self).unread_bytes().len() > 0 ==> result == Ok::<Command, ()>(
                command_of_byte(old(self).unread_bytes()[0])->0,
            ) && final(self).unread_bytes() == old(self).unread_bytes().drop_first(),
    ;

    /// Reads the id of an acknowledgement.
    fn read_ack(&mut self) -> (id: Vec<u8>)
        requires
            old(self).unread_bytes().len() >= ACK_ID_LEN,
        ensures
            id@ == old(self).unread_bytes().take(ACK_ID_LEN as int),
            final(self).unread_bytes() == old(self).unread_bytes().skip(ACK_ID_LEN as int),
    ;
}

/// Writing the client protocol's frames.
pub trait WriteProtocol {
    /// Everything written so far.
    spec fn written_bytes(&self) -> Seq<u8>;

    /// Writes the byte of `command`.
    fn write_command(&mut self, command: Command)
        ensures
            final(self).written_bytes() == old(self).written_bytes().push(command_byte(command)),
    ;

    /// Answers a positive acknowledgement: writes the bytes of `id` alone, no
    /// command byte goes in front.
    fn write_ack(&mut self, id: Vec<u8>)
        ensures
            final(self).written_bytes() == old(self).written_bytes() + id@,
    ;

    /// Answers a negative acknowledgement: writes the bytes of `id` alone, no
    /// command byte goes in front.
    fn write_nack(&mut self, id: Vec<u8>)
        ensures
            final(self).written_bytes() == old(self).written_bytes() + id@,
    ;

    /// Writes the bytes of `id` as they are.
    fn write_id(&mut self, id: &[u8])
        ensures
            final(self).written_bytes() == old(self).written_bytes() + id@,
    ;
}

/// A buffer that frames are written into, to be sent as they stand.
impl WriteProtocol for Vec<u8> {
    open spec fn written_bytes(&self) -> Seq<u8> {
        self@
    }

    fn write_command(&mut self, command: Command) {
        self.push(command.as_byte());
    }

    fn write_ack(&mut self, id: Vec<u8>) {
        append_bytes(self, id.as_slice());
    }

    fn write_nack(&mut self, id: Vec<u8>) {
        append_bytes(self, id.as_slice());
    }

    fn write_id(&mut self, id: &[u8]) {
        append_bytes(self, id);
    }
}

/// Reads the client protocol's frames from bytes that have arrived, front to
/// back.
pub struct ClientReader<'a> {
    bytes: &'a [u8],
    pos: usize,
}

impl<'a> ClientReader<'a> {
    #[verifier::type_invariant]
    spec fn inv(self) -> bool {
        self.pos <= self.bytes@.len()
    }

    /// The bytes that the reader was made with.
    pub closed spec fn source(&self) -> Seq<u8> {
        self.bytes@
    }

    /// A reader at the start of `bytes`.
    pub fn new(bytes: &'a [u8]) -> (reader: ClientReader<'a>)
        ensures
            reader.unread_bytes() == bytes@,
            reader.source() == bytes@,
    {
        let reader = ClientReader { bytes, pos: 0 };
        assert(bytes@.skip(0) =~= bytes@);
        reader
    }

    /// How many bytes have been read.
    pub fn position(&self) -> (n: usize)
        ensures
            n <= self.source().len(),
            self.unread_bytes() == self.source().skip(n as int),
    {
        proof {
            use_type_invariant(self);
        }
        self.pos
    }

    /// How many bytes are left to read.
    pub fn remaining(&self) -> (n: usize)
        ensures
            n == self.unread_bytes().len(),
    {
        proof {
            use_type_invariant(self);
        }
        self.bytes.len() - self.pos
    }

    /// The next byte, without reading it.
    pub fn peek(&self) -> (b: Option<u8>)
        ensures
            self.unread_bytes().len() == 0 ==> b is None,
            self.unread_bytes().len() > 0 ==> b == Some(self.unread_bytes()[0]),
    {
        proof {
            use_type_invariant(self);
        }
        if self.pos < self.bytes.len() {
            Some(self.bytes[self.pos])
        } else {
            None
        }
    }
}

impl<'a> ReadProtocol for ClientReader<'a> {
    closed spec fn unread_bytes(&self) -> Seq<u8> {
        self.bytes@.skip(self.pos as int)
    }

    fn read_command(&mut self) -> (result: Result<Command, ()>)
        ensures
            final(self).source() == old(self).source(),
    {
        proof {
            use_type_invariant(&*self);
        }
        if self.pos < self.bytes.len() {
            let byte = self.bytes[self.pos];
            self.pos = self.pos + 1;
            assert(self.bytes@.skip(self.pos as int) =~= old(self).unread_bytes().drop_first());
            match Command::from_byte(byte) {
                Some(c) => Ok(c),
                None => Err(()),
            }
        } else {
            Err(())
        }
    }

    fn read_ack(&mut self) -> (id: Vec<u8>)
        ensures
            final(self).source() == old(self).source(),
    {
        proof {
            use_type_invariant(&*self);
        }
        let mut id: Vec<u8> = Vec::new();
        let start = self.pos;
        let len = self.bytes.len();
        let mut i: usize = 0;
        while i < ACK_ID_LEN
            invariant
                i <= ACK_ID_LEN,
                len == self.bytes@.len(),
                start + ACK_ID_LEN <= len,
                id@ == self.bytes@.subrange(start as int, start + i),
            decreases ACK_ID_LEN - i,
        {
            id.push(self.bytes[start + i]);
            i = i + 1;
            assert(id@ =~= self.bytes@.subrange(start as int, start + i));
        }
        self.pos = start + ACK_ID_LEN;
        assert(id@ =~= old(self).unread_bytes().take(ACK_ID_LEN as int));
        assert(self.bytes@.skip(self.pos as int) =~= old(self).unread_bytes().skip(
            ACK_ID_LEN as int,
        ));
        id
    }
}

/// What `write_command` writes, `read_command` reads back as the same
/// command, leaving what was written after it.
pub proof fn law_command_reads_back(command: Command, rest: Seq<u8>)
    ensures
        ({
            let s = seq![command_byte(command)] + rest;
            &&& s.len() > 0
            &&& is_command_byte(s[0])
            &&& command_of_byte(s[0]) == Some(command)
            &&& s.drop_first() == rest
        }),
{
    let s = seq![command_byte(command)] + rest;
    assert(s.drop_first() =~= rest);
}

/// What `write_command` and then `write_id` of an id of the acknowledgement
/// length write, `read_command` and then `read_ack` read back as the same
/// command and id, leaving what was written after it.
pub proof fn law_acknowledgement_reads_back(command: Command, id: Seq<u8>, rest: Seq<u8>)
    requires
        id.len() == ACK_ID_LEN,
    ensures
        ({
            let s = seq![command_byte(command)] + id + rest;
            &&& command_of_byte(s[0]) == Some(command)
            &&& s.drop_first().len() >= ACK_ID_LEN
            &&& s.drop_first().take(ACK_ID_LEN as int) == id
            &&& s.drop_first().skip(ACK_ID_LEN as int) == rest
        }),
{
    let s = seq![command_byte(command)] + id + rest;
    assert(s.drop_first() =~= id + rest);
    assert((id + rest).take(ACK_ID_LEN as int) =~= id);
    assert((id + rest).skip(ACK_ID_LEN as int) =~= rest);
}

} // verus!
