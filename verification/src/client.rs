//! A second command set for the client: its own command bytes, ten-byte
//! message ids, and a registry of models kept by name.

pub mod command;
pub mod protocol;
pub mod reader;
pub mod time;

use vstd::prelude::*;
use vstd::utf8::encode_utf8;

use avro_rs::Schema;

use crate::avro::{avro_schema_accepts, parse_schema_text, ParsedSchema};
use crate::client::protocol::WriteProtocol;
use crate::client::command::{command_byte, Command};
use crate::entropy::{duration_nanos, sample_alphanumeric, seeded_rng, since_unix_epoch, system_now};
use crate::gaze::{definition_full_name, is_id_failure, Gaze as Registry, GazeError};
use crate::ids::IdMap;
use crate::json::{json_is_valid, parse_json, string_member};
use crate::protocol::append_bytes;
use time::{is_ascii_alphanumeric, micros_within_second, readable_digits, write_readable_digits};

verus! {

/// Length of the id of a published message.
pub const ID_LEN: usize = 10;

/// The six zero bytes that the readable digits are written over.
pub open spec fn zero_digits() -> Seq<u8> {
    seq![0u8, 0u8, 0u8, 0u8, 0u8, 0u8]
}

/// The id made from a clock reading of `nanos` nanoseconds and the drawn
/// characters `chars`: the readable digits of the microseconds within the
/// second, written over six zero bytes, then the characters.
pub open spec fn client_id(nanos: u128, chars: Seq<u8>) -> Seq<u8> {
    readable_digits(micros_within_second(nanos), 0, zero_digits()) + chars
}

/// Whether `chars` are four ASCII letters or digits.
pub open spec fn is_id_tail(chars: Seq<u8>) -> bool {
    chars.len() == 4 && forall|j: int| 0 <= j < 4 ==> is_ascii_alphanumeric(#[trigger] chars[j])
}

/// Whether `id` has the shape of a message id: the readable digits of a
/// number of microseconds below a million, written over six zero bytes,
/// then four ASCII letters or digits.
pub open spec fn is_message_id(id: Seq<u8>) -> bool {
    &&& id.len() == ID_LEN
    &&& exists|n: nat|
        n < 1_000_000 && #[trigger] readable_digits(n, 0, zero_digits())
            == id.take(6)
    &&& forall|j: int| 6 <= j < ID_LEN ==> is_ascii_alphanumeric(#[trigger] id[j])
}

/// The client's registry of models, by the UTF-8 bytes of their names.
pub struct Gaze {
    models: IdMap<ParsedSchema>,
    definitions: IdMap<String>,
}

impl Gaze {
    /// The schemas of the added models, by the UTF-8 bytes of their names.
    pub closed spec fn models(&self) -> Map<Seq<u8>, Schema> {
        self.models.view().map_values(|p: ParsedSchema| p.value())
    }

    /// For each added model, the definition text that avro-rs parsed its
    /// schema from; `None` for a schema that was handed in whole.
    pub closed spec fn model_sources(&self) -> Map<Seq<u8>, Option<Seq<char>>> {
        self.models.view().map_values(|p: ParsedSchema| p.parsed_from())
    }

    /// The definitions that the models were added from, by the UTF-8 bytes of
    /// their names.
    pub closed spec fn definitions(&self) -> Map<Seq<u8>, Seq<char>> {
        self.definitions.view().map_values(|d: String| d@)
    }

    /// A client with no model added.
    pub fn new() -> (gaze: Gaze)
        ensures
            gaze.models() == Map::<Seq<u8>, Schema>::empty(),
            gaze.model_sources() == Map::<Seq<u8>, Option<Seq<char>>>::empty(),
            gaze.definitions() == Map::<Seq<u8>, Seq<char>>::empty(),
    {
        let gaze = Gaze { models: IdMap::new(), definitions: IdMap::new() };
        assert(gaze.models() =~= Map::<Seq<u8>, Schema>::empty());
        assert(gaze.model_sources() =~= Map::<Seq<u8>, Option<Seq<char>>>::empty());
        assert(gaze.definitions() =~= Map::<Seq<u8>, Seq<char>>::empty());
        gaze
    }

    /// The definition that the model named `model_id` was added from, if it
    /// was added.
    pub fn definition(&self, model_id: &str) -> (r: Option<&String>)
        ensures
            self.definitions().contains_key(encode_utf8(model_id@)) <==> r is Some,
            r matches Some(d) ==> d@ == self.definitions()[encode_utf8(model_id@)],
    {
        self.definitions.get(model_id.as_bytes())
    }

    /// The schema of the model named `model_id`, if it was added.
    pub fn model(&self, model_id: &str) -> (r: Option<&Schema>)
        ensures
            self.models().contains_key(encode_utf8(model_id@)) ==> r == Some(
                &self.models()[encode_utf8(model_id@)],
            ),
            !self.models().contains_key(encode_utf8(model_id@)) ==> r is None,
    {
        match self.models.get(model_id.as_bytes()) {
            Some(p) => Some(p.schema()),
            None => None,
        }
    }

    /// Adds `model`, defined by `definition`, under the name `model_id`, in
    /// place of any model of that name. Returns the name.
    pub fn insert_model(&mut self, model_id: String, model: Schema, definition: &str) -> (r:
        String)
        ensures
            r@ == model_id@,
            final(self).models() == old(self).models().insert(encode_utf8(model_id@), model),
            final(self).model_sources() == old(self).model_sources().insert(
                encode_utf8(model_id@),
                None,
            ),
            final(self).definitions() == old(self).definitions().insert(
                encode_utf8(model_id@),
                definition@,
            ),
    {
        self.insert_parsed(model_id, ParsedSchema::given(model), definition)
    }

    /// Adds the schema of `parsed`, and what it was parsed from, defined by
    /// `definition`, under the name `model_id`, in place of any model of that
    /// name. Returns the name.
    fn insert_parsed(&mut self, model_id: String, parsed: ParsedSchema, definition: &str) -> (r:
        String)
        ensures
            r@ == model_id@,
            final(self).models() == old(self).models().insert(
                encode_utf8(model_id@),
                parsed.value(),
            ),
            final(self).model_sources() == old(self).model_sources().insert(
                encode_utf8(model_id@),
                parsed.parsed_from(),
            ),
            final(self).definitions() == old(self).definitions().insert(
                encode_utf8(model_id@),
                definition@,
            ),
    {
        let mut key: Vec<u8> = Vec::new();
        append_bytes(&mut key, model_id.as_str().as_bytes());
        assert(key@ =~= encode_utf8(model_id@));
        let ghost value = parsed.value();
        let ghost source = parsed.parsed_from();
        self.models.insert(key.clone(), parsed);
        assert(self.models() =~= old(self).models().insert(encode_utf8(model_id@), value));
        assert(self.model_sources() =~= old(self).model_sources().insert(
            encode_utf8(model_id@),
            source,
        ));
        let text = definition.to_owned();
        self.definitions.insert(key, text);
        assert(self.definitions() =~= old(self).definitions().insert(
            encode_utf8(model_id@),
            definition@,
        ));
        model_id
    }

    /// The id made from a clock reading of `nanos` nanoseconds and the four
    /// drawn characters `chars`.
    pub fn message_id_of(nanos: u128, chars: &[u8]) -> (id: Vec<u8>)
        requires
            is_id_tail(chars@),
        ensures
            id@ == client_id(nanos, chars@),
            is_message_id(id@),
    {
        let n = ((nanos % 1_000_000_000) / 1000) as usize;
        let mut ns: [u8; 6] = [0u8; 6];
        assert(ns@ =~= zero_digits());
        write_readable_digits(n, &mut ns);
        let mut id: Vec<u8> = Vec::new();
        append_bytes(&mut id, ns.as_slice());
        append_bytes(&mut id, chars);
        proof {
            let d = readable_digits(micros_within_second(nanos), 0, zero_digits());
            time::lemma_readable_digits_alphanumeric(micros_within_second(nanos), 0, zero_digits(), 0);
            assert(id@ =~= client_id(nanos, chars@));
            assert(d.len() == 6);
            assert(id@.take(6) =~= d);
            assert forall|j: int| 6 <= j < ID_LEN implies is_ascii_alphanumeric(#[trigger] id@[j]) by {
                assert(id@[j] == chars@[j - 6]);
            }
        }
        id
    }

    /// A fresh message id from the clock and chance.
    pub fn generate_id() -> (id: Result<Vec<u8>, GazeError>)
        ensures
            id matches Ok(i) ==> is_message_id(i@),
            id matches Ok(i) ==> exists|nanos: u128, chars: Seq<u8>|
                is_id_tail(chars) && i@ == #[trigger] client_id(nanos, chars),
            id matches Err(e) ==> is_id_failure(e),
    {
        let now = system_now();
        let elapsed = match since_unix_epoch(&now) {
            Some(d) => d,
            None => return Err(GazeError::ClockBeforeEpoch),
        };
        let nanos = duration_nanos(&elapsed);
        let mut rng = match seeded_rng() {
            Some(rng) => rng,
            None => return Err(GazeError::RandomnessUnavailable),
        };
        let mut chars: Vec<u8> = Vec::new();
        let mut k: usize = 0;
        while k < 4
            invariant
                k <= 4,
                chars@.len() == k,
                forall|j: int| 0 <= j < k ==> is_ascii_alphanumeric(#[trigger] chars@[j]),
            decreases 4 - k,
        {
            let c = sample_alphanumeric(&mut rng);
            chars.push(c);
            k = k + 1;
        }
        let id = Gaze::message_id_of(nanos, chars.as_slice());
        assert(id@ == client_id(nanos, chars@));
        Ok(id)
    }

    /// Adds the model that `raw_definition` defines in JSON, named by the
    /// definition's `namespace` and `name` members where they are strings,
    /// in place of any model of that name, with the schema that avro-rs
    /// parses from the definition. Returns the name.
    pub fn add_model(&mut self, raw_definition: &str) -> (r: Result<String, GazeError>)
        ensures
            r is Ok <==> json_is_valid(raw_definition@) && avro_schema_accepts(raw_definition@),
            r matches Err(GazeError::InvalidDefinition(_)) <==> !json_is_valid(raw_definition@),
            r matches Err(GazeError::InvalidSchema(_)) <==> json_is_valid(raw_definition@)
                && !avro_schema_accepts(raw_definition@),
            r is Err ==> final(self).models() == old(self).models(),
            r is Err ==> final(self).definitions() == old(self).definitions(),
            r is Err ==> final(self).model_sources() == old(self).model_sources(),
            r matches Ok(model_id) ==> model_id@ == definition_full_name(raw_definition@),
            r matches Ok(model_id) ==> final(self).definitions() == old(self).definitions().insert(
                encode_utf8(model_id@),
                raw_definition@,
            ),
            r matches Ok(model_id) ==> final(self).model_sources() == old(
                self,
            ).model_sources().insert(encode_utf8(model_id@), Some(raw_definition@)),
            r matches Ok(model_id) ==> final(self).models().dom() == old(self).models().dom().insert(
                encode_utf8(model_id@),
            ),
            r matches Ok(model_id) ==> forall|k: Seq<u8>|
                k != encode_utf8(model_id@) && #[trigger] old(self).models().contains_key(k)
                    ==> final(self).models()[k] == old(self).models()[k],
    {
        match parse_json(raw_definition) {
            Ok(_) => {},
            Err(e) => return Err(GazeError::InvalidDefinition(e)),
        };
        let name = string_member(raw_definition, "name");
        let namespace = string_member(raw_definition, "namespace");
        let parsed = match parse_schema_text(raw_definition.to_owned()) {
            Ok(p) => p,
            Err(e) => return Err(GazeError::InvalidSchema(e)),
        };
        let model_id = Registry::qualify_name(
            match &namespace {
                Some(x) => Some(x.as_str()),
                None => None,
            },
            match &name {
                Some(x) => Some(x.as_str()),
                None => None,
            },
        );
        let model_id = self.insert_parsed(model_id, parsed, raw_definition);
        assert(self.models().dom() =~= old(self).models().dom().insert(encode_utf8(model_id@)));
        Ok(model_id)
    }

    /// Starts the frame that publishes a message of the added model
    /// `model_id`: draws a fresh id and writes the publish command and the
    /// id. Returns the id. The length of the encoded message and the encoded
    /// message follow in the frame; this crate does not hold the client's
    /// length encoding, so the caller writes them.
    pub fn publish<W: WriteProtocol>(&self, model_id: &str, out: &mut W) -> (r: Result<
        Vec<u8>,
        GazeError,
    >)
        requires
            self.models().contains_key(encode_utf8(model_id@)),
        ensures
            r matches Ok(id) ==> {
                &&& is_message_id(id@)
                &&& final(out).written_bytes() == old(out).written_bytes().push(
                    command_byte(Command::Publish),
                ) + id@
            },
            r matches Err(e) ==> is_id_failure(e),
            r is Err ==> final(out).written_bytes() == old(out).written_bytes(),
    {
        let id = match Gaze::generate_id() {
            Ok(id) => id,
            Err(e) => return Err(e),
        };
        out.write_command(Command::Publish);
        out.write_id(id.as_slice());
        Ok(id)
    }
}

} // verus!
