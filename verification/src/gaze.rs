use vstd::prelude::*;
use vstd::string::*;
use vstd::utf8::encode_utf8;

use avro_rs::Schema;
use serde_json::Value;

use crate::avro::{avro_schema_accepts, parse_schema_text, ParsedSchema};
use crate::command::{command_byte, Command};
use crate::entropy::{duration_millis, fill_random, seeded_rng, since_unix_epoch, system_now};
use crate::hashing::{xx_hash32, xxhash32};
use crate::ids::IdMap;
use crate::json::{json_is_valid, json_kind, json_string_member, json_text, parse_json, string_member, JsonKind};
use crate::protocol::WriteProtocol;
use crate::reader::Reader;
use crate::wire::{le_bytes_u32, le_bytes_u64, le_u32_value, lemma_le_u32_roundtrip, u32_le_bytes, u64_le_bytes};

verus! {

/// Why an operation of the client failed.
#[derive(Debug)]
pub enum GazeError {
    /// The type definition is not JSON.
    InvalidDefinition(serde_json::Error),
    /// The type definition is JSON but no Avro schema.
    InvalidSchema(avro_rs::Error),
    /// A subscription filter that is neither an array nor an object.
    InvalidFilter,
    /// The system clock reads a time before the Unix epoch, so no id can be
    /// made from it.
    ClockBeforeEpoch,
    /// The operating system's generator cannot seed a random generator, so
    /// no id can be drawn.
    RandomnessUnavailable,
}

/// Whether `e` is one of the two ways that drawing an id fails.
pub open spec fn is_id_failure(e: GazeError) -> bool {
    e is ClockBeforeEpoch || e is RandomnessUnavailable
}

/// The message type of the type named `full_name`: the little-endian bytes
/// of the 32-bit xxHash of the name's UTF-8 bytes.
pub open spec fn message_type_of(full_name: Seq<char>) -> Seq<u8> {
    le_bytes_u32(xxhash32(encode_utf8(full_name)))
}

/// The id of a message made at `millis` milliseconds after the epoch with
/// the three random bytes `random`: the first random byte with its six high
/// bits set, the third random byte, then the bytes 4 to 7 of the
/// little-endian time.
pub open spec fn message_id(millis: u64, random: Seq<u8>) -> Seq<u8> {
    let t = le_bytes_u64(millis);
    seq![random[0] | 0xfc, random[2], t[4], t[5], t[6], t[7]]
}

/// Whether `id` has the shape of a message id.
pub open spec fn is_message_id(id: Seq<u8>) -> bool {
    exists|millis: u64, random: Seq<u8>| random.len() == 3 && id == message_id(millis, random)
}

/// The id of a subscription made at `millis` milliseconds after the epoch
/// with the two random bytes `random`: the two random bytes, then the bytes 4
/// and 5 of the little-endian time.
pub open spec fn subscription_id(millis: u64, random: Seq<u8>) -> Seq<u8> {
    let t = le_bytes_u64(millis);
    seq![random[0], random[1], t[4], t[5]]
}

/// Whether `id` has the shape of a subscription id.
pub open spec fn is_subscription_id(id: Seq<u8>) -> bool {
    exists|millis: u64, random: Seq<u8>| random.len() == 2 && id == subscription_id(millis, random)
}

/// The full name of a type: the namespace and a dot, if there is a
/// namespace, then the name, if there is one.
pub open spec fn qualified_name(namespace: Option<Seq<char>>, name: Option<Seq<char>>) -> Seq<char> {
    (match namespace {
        Some(ns) => ns + seq!['.'],
        None => Seq::<char>::empty(),
    }) + (match name {
        Some(n) => n,
        None => Seq::<char>::empty(),
    })
}

/// The full name of the type that the definition `text` defines: its
/// `namespace` and `name` members, where they are strings.
pub open spec fn definition_full_name(text: Seq<char>) -> Seq<char> {
    qualified_name(
        json_string_member(text, "namespace"@),
        json_string_member(text, "name"@),
    )
}

/// The message type of the type that the definition `text` defines.
pub open spec fn definition_message_type(text: Seq<char>) -> Seq<u8> {
    message_type_of(definition_full_name(text))
}

/// The frame that announces a type: the schema command, the message type,
/// the length of the definition's bytes cut to 32 bits, and those bytes.
pub open spec fn schema_frame(message_type: Seq<u8>, definition: Seq<u8>) -> Seq<u8> {
    seq![command_byte(Command::Schema)] + message_type + le_bytes_u32(
        definition.len() as usize as u32,
    ) + definition
}

/// The frame that publishes a message: the message command, the id, the
/// message type, the length of the message cut to 32 bits, and the message.
pub open spec fn publish_frame(id: Seq<u8>, message_type: Seq<u8>, message: Seq<u8>) -> Seq<u8> {
    seq![command_byte(Command::Message)] + id + message_type + le_bytes_u32(
        message.len() as usize as u32,
    ) + message
}

/// The bytes of the offset that a subscription starts at: the bytes 2 to 7 of
/// the little-endian offset.
pub open spec fn offset_bytes(offset: u64) -> Seq<u8> {
    le_bytes_u64(offset).subrange(2, 8)
}

/// The start of the frame that subscribes: the subscribe command, the
/// offset's bytes and the subscription id.
pub open spec fn subscribe_head(offset: u64, id: Seq<u8>) -> Seq<u8> {
    seq![command_byte(Command::Subscribe)] + offset_bytes(offset) + id
}

/// The bytes of `text`, with their length cut to 32 bits in front.
pub open spec fn sized_text(text: Seq<char>) -> Seq<u8> {
    le_bytes_u32(encode_utf8(text).len() as usize as u32) + encode_utf8(text)
}

/// The text that is sent for a filter of shape `kind` and compact JSON text
/// `text`: an object goes inside a one-element array, an array as it is.
pub open spec fn filter_text(kind: JsonKind, text: Seq<char>) -> Seq<char> {
    if kind is Object {
        seq!['['] + text + seq![']']
    } else {
        text
    }
}

/// A subscription filter: the shape of its JSON value and its compact JSON
/// text.
pub struct Filter {
    pub kind: JsonKind,
    pub text: String,
}

impl Filter {
    /// The shape and the compact text of the JSON value `value`.
    pub fn from_json(value: &Value) -> (filter: Filter) {
        Filter { kind: json_kind(value), text: json_text(value) }
    }
}

/// The client's side of the registry of message types, and the frames that
/// it sends.
pub struct Gaze {
    schemas: IdMap<ParsedSchema>,
}

impl Gaze {
    /// The schemas of the registered types, by message type.
    pub closed spec fn schemas(&self) -> Map<Seq<u8>, Schema> {
        self.schemas.view().map_values(|p: ParsedSchema| p.value())
    }

    /// For each registered type, the definition text that avro-rs parsed its
    /// schema from; `None` for a schema that was handed in whole.
    pub closed spec fn schema_sources(&self) -> Map<Seq<u8>, Option<Seq<char>>> {
        self.schemas.view().map_values(|p: ParsedSchema| p.parsed_from())
    }

    /// A client with no type registered.
    pub fn new() -> (gaze: Gaze)
        ensures
            gaze.schemas() == Map::<Seq<u8>, Schema>::empty(),
            gaze.schema_sources() == Map::<Seq<u8>, Option<Seq<char>>>::empty(),
    {
        let gaze = Gaze { schemas: IdMap::new() };
        assert(gaze.schemas() =~= Map::<Seq<u8>, Schema>::empty());
        assert(gaze.schema_sources() =~= Map::<Seq<u8>, Option<Seq<char>>>::empty());
        gaze
    }

    /// The schema registered for `message_type`, if any.
    pub fn schema(&self, message_type: &[u8]) -> (r: Option<&Schema>)
        ensures
            self.schemas().contains_key(message_type@) ==> r == Some(
                &self.schemas()[message_type@],
            ),
            !self.schemas().contains_key(message_type@) ==> r is None,
    {
        match self.schemas.get(message_type) {
            Some(p) => Some(p.schema()),
            None => None,
        }
    }

    /// The message type of the type named `message_type`.
    pub fn hash_message_type(message_type: String) -> (r: Vec<u8>)
        ensures
            r@ == message_type_of(message_type@),
    {
        let h = xx_hash32(message_type.as_str().as_bytes());
        u32_le_bytes(h)
    }

    /// The id of a message made at `millis` milliseconds after the epoch with
    /// the three random bytes `random`.
    pub fn message_id_from(millis: u64, random: &[u8]) -> (id: Vec<u8>)
        requires
            random@.len() == 3,
        ensures
            id@ == message_id(millis, random@),
    {
        let mut timestamp = u64_le_bytes(millis);
        timestamp.set(1, random[0]);
        timestamp.set(2, random[1]);
        timestamp.set(3, random[2]);
        let last_byte_random = timestamp[1];
        timestamp.set(2, last_byte_random | 0xfc);
        let mut id: Vec<u8> = Vec::new();
        let mut i: usize = 2;
        while i < 8
            invariant
                2 <= i <= 8,
                timestamp@.len() == 8,
                id@ == timestamp@.subrange(2, i as int),
            decreases 8 - i,
        {
            id.push(timestamp[i]);
            i = i + 1;
            assert(id@ =~= timestamp@.subrange(2, i as int));
        }
        assert(id@ =~= message_id(millis, random@));
        id
    }

    /// The id of a subscription made at `millis` milliseconds after the
    /// epoch with the two random bytes `random`.
    pub fn subscription_id_from(millis: u64, random: &[u8]) -> (id: Vec<u8>)
        requires
            random@.len() == 2,
        ensures
            id@ == subscription_id(millis, random@),
    {
        let mut timestamp = u64_le_bytes(millis);
        timestamp.set(2, random[0]);
        timestamp.set(3, random[1]);
        let mut id: Vec<u8> = Vec::new();
        let mut i: usize = 2;
        while i < 6
            invariant
                2 <= i <= 6,
                timestamp@.len() == 8,
                id@ == timestamp@.subrange(2, i as int),
            decreases 6 - i,
        {
            id.push(timestamp[i]);
            i = i + 1;
            assert(id@ =~= timestamp@.subrange(2, i as int));
        }
        assert(id@ =~= subscription_id(millis, random@));
        id
    }

    /// Milliseconds since the epoch by the system clock, cut to 64 bits;
    /// `None` when the clock reads a time before the epoch.
    fn clock_millis() -> Option<u64> {
        let now = system_now();
        match since_unix_epoch(&now) {
            Some(elapsed) => Some(duration_millis(&elapsed) as u64),
            None => None,
        }
    }

    /// A fresh message id from the clock and chance.
    fn generate_message_id() -> (id: Result<Vec<u8>, GazeError>)
        ensures
            id matches Ok(i) ==> is_message_id(i@),
            id matches Err(e) ==> is_id_failure(e),
    {
        let millis = match Gaze::clock_millis() {
            Some(m) => m,
            None => return Err(GazeError::ClockBeforeEpoch),
        };
        let mut rng = match seeded_rng() {
            Some(rng) => rng,
            None => return Err(GazeError::RandomnessUnavailable),
        };
        let mut random: Vec<u8> = vec![0u8, 0u8, 0u8];
        fill_random(&mut rng, &mut random);
        let id = Gaze::message_id_from(millis, random.as_slice());
        assert(is_message_id(id@)) by {
            assert(id@ == message_id(millis, random@));
        }
        Ok(id)
    }

    /// A fresh subscription id from the clock and chance.
    fn generate_subscription_id() -> (id: Result<Vec<u8>, GazeError>)
        ensures
            id matches Ok(i) ==> is_subscription_id(i@),
            id matches Err(e) ==> is_id_failure(e),
    {
        let millis = match Gaze::clock_millis() {
            Some(m) => m,
            None => return Err(GazeError::ClockBeforeEpoch),
        };
        let mut rng = match seeded_rng() {
            Some(rng) => rng,
            None => return Err(GazeError::RandomnessUnavailable),
        };
        let mut random: Vec<u8> = vec![0u8, 0u8];
        fill_random(&mut rng, &mut random);
        let id = Gaze::subscription_id_from(millis, random.as_slice());
        assert(is_subscription_id(id@)) by {
            assert(id@ == subscription_id(millis, random@));
        }
        Ok(id)
    }

    /// The full name of a type from its namespace and name, where the
    /// definition has them.
    pub fn qualify_name(namespace: Option<&str>, name: Option<&str>) -> (full: String)
        ensures
            full@ == qualified_name(
                match namespace {
                    Some(ns) => Some(ns@),
                    None => None,
                },
                match name {
                    Some(n) => Some(n@),
                    None => None,
                },
            ),
    {
        let mut full = String::new();
        proof {
            reveal_strlit(".");
        }
        match namespace {
            Some(ns) => {
                full.append(ns);
                full.append(".");
            },
            None => {},
        }
        match name {
            Some(n) => full.append(n),
            None => {},
        }
        full
    }

    /// Registers the type named `full_name` with `schema` and announces it,
    /// unless its message type is registered already. Returns the message
    /// type.
    pub fn register_type<W: WriteProtocol>(
        &mut self,
        full_name: String,
        raw_definition: &str,
        schema: Schema,
        out: &mut W,
    ) -> (message_type: Vec<u8>)
        ensures
            message_type@ == message_type_of(full_name@),
            old(self).schemas().contains_key(message_type@) ==> {
                &&& final(self).schemas() == old(self).schemas()
                &&& final(self).schema_sources() == old(self).schema_sources()
                &&& final(out).written() == old(out).written()
            },
            !old(self).schemas().contains_key(message_type@) ==> {
                &&& final(self).schemas() == old(self).schemas().insert(message_type@, schema)
                &&& final(self).schema_sources() == old(self).schema_sources().insert(
                    message_type@,
                    None,
                )
                &&& final(out).written() == old(out).written() + schema_frame(
                    message_type@,
                    raw_definition.spec_bytes(),
                )
            },
    {
        self.register_parsed(full_name, raw_definition, ParsedSchema::given(schema), out)
    }

    /// Registers the type named `full_name` with the schema of `parsed`, and
    /// what it was parsed from, and announces it, unless its message type is
    /// registered already. Returns the message type.
    fn register_parsed<W: WriteProtocol>(
        &mut self,
        full_name: String,
        raw_definition: &str,
        parsed: ParsedSchema,
        out: &mut W,
    ) -> (message_type: Vec<u8>)
        ensures
            message_type@ == message_type_of(full_name@),
            old(self).schemas().contains_key(message_type@) ==> {
                &&& final(self).schemas() == old(self).schemas()
                &&& final(self).schema_sources() == old(self).schema_sources()
                &&& final(out).written() == old(out).written()
            },
            !old(self).schemas().contains_key(message_type@) ==> {
                &&& final(self).schemas() == old(self).schemas().insert(
                    message_type@,
                    parsed.value(),
                )
                &&& final(self).schema_sources() == old(self).schema_sources().insert(
                    message_type@,
                    parsed.parsed_from(),
                )
                &&& final(out).written() == old(out).written() + schema_frame(
                    message_type@,
                    raw_definition.spec_bytes(),
                )
            },
    {
        let message_type = Gaze::hash_message_type(full_name);
        if self.schemas.contains(message_type.as_slice()) {
            return message_type;
        }
        let ghost value = parsed.value();
        let ghost source = parsed.parsed_from();
        self.schemas.insert(message_type.clone(), parsed);
        assert(self.schemas() =~= old(self).schemas().insert(message_type@, value));
        assert(self.schema_sources() =~= old(self).schema_sources().insert(message_type@, source));
        let definition = raw_definition.as_bytes();
        out.write_command(Command::Schema);
        out.write_id(message_type.as_slice());
        out.write_size(raw_definition.len());
        out.write_id(definition);
        assert(final(out).written() =~= old(out).written() + schema_frame(
            message_type@,
            raw_definition.spec_bytes(),
        ));
        message_type
    }

    /// Registers the type that `raw_definition` defines in JSON and, when it
    /// is new, announces it. The type is named by the definition's
    /// `namespace` and `name` members, where they are strings, and keeps the
    /// schema that avro-rs parses from the definition. Returns the message
    /// type.
    pub fn add_type<W: WriteProtocol>(&mut self, raw_definition: &str, out: &mut W) -> (r: Result<
        Vec<u8>,
        GazeError,
    >)
        ensures
            r is Ok <==> json_is_valid(raw_definition@) && avro_schema_accepts(raw_definition@),
            r matches Err(GazeError::InvalidDefinition(_)) <==> !json_is_valid(raw_definition@),
            r matches Err(GazeError::InvalidSchema(_)) <==> json_is_valid(raw_definition@)
                && !avro_schema_accepts(raw_definition@),
            r is Err ==> {
                &&& final(self).schemas() == old(self).schemas()
                &&& final(self).schema_sources() == old(self).schema_sources()
                &&& final(out).written() == old(out).written()
            },
            r matches Ok(message_type) ==> {
                &&& message_type@ == definition_message_type(raw_definition@)
                &&& old(self).schemas().contains_key(message_type@) ==> {
                    &&& final(self).schemas() == old(self).schemas()
                    &&& final(self).schema_sources() == old(self).schema_sources()
                    &&& final(out).written() == old(out).written()
                }
                &&& !old(self).schemas().contains_key(message_type@) ==> {
                    &&& final(self).schemas().dom() == old(self).schemas().dom().insert(
                        message_type@,
                    )
                    &&& forall|k: Seq<u8>|
                        k != message_type@ && #[trigger] old(self).schemas().contains_key(k)
                            ==> final(self).schemas()[k] == old(self).schemas()[k]
                    &&& final(self).schema_sources() == old(self).schema_sources().insert(
                        message_type@,
                        Some(raw_definition@),
                    )
                    &&& final(out).written() == old(out).written() + schema_frame(
                        message_type@,
                        raw_definition.spec_bytes(),
                    )
                }
            },
    {
        match parse_json(raw_definition) {
            Ok(_) => {},
            Err(e) => return Err(GazeError::InvalidDefinition(e)),
        };
        let name = string_member(raw_definition, "name");
        let namespace = string_member(raw_definition, "namespace");
        let parsed = match parse_schema_text(raw_definition.to_owned()) {
            Ok(p) => p,
            Err(e) => return Err(GazeError::InvalidSchema(e)),
        };
        let full_name = Gaze::qualify_name(
            match &namespace {
                Some(x) => Some(x.as_str()),
                None => None,
            },
            match &name {
                Some(x) => Some(x.as_str()),
                None => None,
            },
        );
        let message_type = self.register_parsed(full_name, raw_definition, parsed, out);
        proof {
            if !old(self).schemas().contains_key(message_type@) {
                assert(self.schemas().dom() =~= old(self).schemas().dom().insert(message_type@));
            }
        }
        Ok(message_type)
    }

    /// Writes the frame that publishes `message` of type `message_type` under
    /// the message id `id`.
    pub fn write_publish<W: WriteProtocol>(
        out: &mut W,
        id: &[u8],
        message_type: &[u8],
        message: &[u8],
    )
        ensures
            final(out).written() == old(out).written() + publish_frame(
                id@,
                message_type@,
                message@,
            ),
    {
        out.write_command(Command::Message);
        out.write_id(id);
        out.write_id(message_type);
        out.write_size(message.len());
        out.write_id(message);
        assert(final(out).written() =~= old(out).written() + publish_frame(
            id@,
            message_type@,
            message@,
        ));
    }

    /// Publishes `encoded_message` of a registered `message_type` under a
    /// fresh message id.
    pub fn publish<W: WriteProtocol>(
        &self,
        encoded_message: Vec<u8>,
        message_type: Vec<u8>,
        out: &mut W,
    ) -> (r: Result<(), GazeError>)
        requires
            self.schemas().contains_key(message_type@),
        ensures
            r is Ok ==> exists|id: Seq<u8>|
                is_message_id(id) && final(out).written() == old(out).written() + publish_frame(
                    id,
                    message_type@,
                    encoded_message@,
                ),
            r matches Err(e) ==> is_id_failure(e),
            r is Err ==> final(out).written() == old(out).written(),
    {
        let id = match Gaze::generate_message_id() {
            Ok(id) => id,
            Err(e) => return Err(e),
        };
        Gaze::write_publish(out, id.as_slice(), message_type.as_slice(), encoded_message.as_slice());
        assert(is_message_id(id@));
        Ok(())
    }

    /// Finishes a subscription frame whose head is written, for a filter of
    /// the shape `kind` whose compact JSON text is `text`: an array is sent
    /// as its text, an object as the text of a one-element array holding it,
    /// with the length of the bytes in front; then `sender` is registered for
    /// the subscription `id`. Any other shape is refused, and nothing is
    /// written or registered.
    pub fn finish_subscription<W: WriteProtocol, P, S>(
        reader: &mut Reader<P, S>,
        id: Vec<u8>,
        kind: JsonKind,
        text: &str,
        sender: S,
        out: &mut W,
    ) -> (r: Result<(), GazeError>)
        ensures
            final(reader).pending() == old(reader).pending(),
            kind is Other ==> {
                &&& r matches Err(GazeError::InvalidFilter)
                &&& final(reader).subscribed() == old(reader).subscribed()
                &&& final(out).written() == old(out).written()
            },
            !(kind is Other) ==> {
                &&& r is Ok
                &&& final(reader).subscribed() == old(reader).subscribed().insert(id@, sender)
                &&& final(out).written() == old(out).written() + sized_text(
                    filter_text(kind, text@),
                )
            },
    {
        let sent = match kind {
            JsonKind::Array => {
                let mut t = String::new();
                t.append(text);
                t
            },
            JsonKind::Object => {
                proof {
                    reveal_strlit("[");
                    reveal_strlit("]");
                }
                let mut t = String::new();
                t.append("[");
                t.append(text);
                t.append("]");
                t
            },
            JsonKind::Other => return Err(GazeError::InvalidFilter),
        };
        assert(sent@ =~= filter_text(kind, text@));
        let filter_bytes = sent.as_str().as_bytes();
        out.write_size(filter_bytes.len());
        out.write_id(filter_bytes);
        assert(out.written() =~= old(out).written() + sized_text(filter_text(kind, text@)));
        reader.add_subscription(id, sender);
        Ok(())
    }

    /// Subscribes with `filter`, from the message `offset` on, and registers
    /// `sender` for the new subscription. The frame's head goes out first:
    /// the subscribe command, the offset's bytes and a fresh subscription id;
    /// the filter is then finished as `finish_subscription` says.
    pub fn subscribe<W: WriteProtocol, P, S>(
        reader: &mut Reader<P, S>,
        filter: Filter,
        offset: u64,
        sender: S,
        out: &mut W,
    ) -> (r: Result<(), GazeError>)
        ensures
            final(reader).pending() == old(reader).pending(),
            r is Ok || r matches Err(GazeError::InvalidFilter) || (r matches Err(e)
                && is_id_failure(e)),
            r matches Err(e) && is_id_failure(e) ==> {
                &&& final(reader).subscribed() == old(reader).subscribed()
                &&& final(out).written() == old(out).written().push(
                    command_byte(Command::Subscribe),
                ) + offset_bytes(offset)
            },
            !(r matches Err(e) && is_id_failure(e)) ==> exists|id: Seq<u8>|
                {
                    &&& is_subscription_id(id)
                    &&& (filter.kind is Other ==> {
                        &&& r matches Err(GazeError::InvalidFilter)
                        &&& final(out).written() == old(out).written() + subscribe_head(
                            offset,
                            id,
                        )
                        &&& final(reader).subscribed() == old(reader).subscribed()
                    })
                    &&& (!(filter.kind is Other) ==> {
                        &&& r is Ok
                        &&& final(out).written() == old(out).written() + subscribe_head(
                            offset,
                            id,
                        ) + sized_text(filter_text(filter.kind, filter.text@))
                        &&& final(reader).subscribed() == old(reader).subscribed().insert(
                            id,
                            sender,
                        )
                    })
                },
    {
        out.write_command(Command::Subscribe);
        let offset_le = u64_le_bytes(offset);
        let raw_offset = &offset_le.as_slice()[2..8];
        assert(raw_offset@ =~= offset_bytes(offset));
        out.write_id(raw_offset);
        let id = match Gaze::generate_subscription_id() {
            Ok(id) => id,
            Err(e) => return Err(e),
        };
        out.write_id(id.as_slice());
        let ghost head_written = out.written();
        assert(head_written =~= old(out).written() + subscribe_head(offset, id@));
        let ghost sid = id@;
        let r = Gaze::finish_subscription(reader, id, filter.kind, filter.text.as_str(), sender, out);
        assert(is_subscription_id(sid));
        r
    }
}

/// A publish frame carries the message whole: after the command, the six-byte
/// id and the four-byte message type comes the message's full length as a
/// four-byte little-endian number, then the message.
pub proof fn law_publish_frame_carries_message(id: Seq<u8>, message_type: Seq<u8>, message: Seq<u8>)
    requires
        id.len() == 6,
        message_type.len() == 4,
        message.len() <= u32::MAX,
    ensures
        ({
            let f = publish_frame(id, message_type, message);
            &&& f.len() == 15 + message.len()
            &&& f[0] == command_byte(Command::Message)
            &&& f.subrange(1, 7) == id
            &&& f.subrange(7, 11) == message_type
            &&& le_u32_value(f.skip(11)) == message.len()
            &&& f.skip(15) == message
        }),
{
    let n = message.len() as u32;
    lemma_le_u32_roundtrip(n);
    let f = publish_frame(id, message_type, message);
    assert(f.subrange(1, 7) =~= id);
    assert(f.subrange(7, 11) =~= message_type);
    assert(f.skip(11)[0] == le_bytes_u32(n)[0]);
    assert(f.skip(11)[1] == le_bytes_u32(n)[1]);
    assert(f.skip(11)[2] == le_bytes_u32(n)[2]);
    assert(f.skip(11)[3] == le_bytes_u32(n)[3]);
    assert(f.skip(15) =~= message);
}

/// A sized text carries the text whole: its full byte length as a four-byte
/// little-endian number, then its UTF-8 bytes.
pub proof fn law_sized_text_carries_text(text: Seq<char>)
    requires
        encode_utf8(text).len() <= u32::MAX,
    ensures
        ({
            let f = sized_text(text);
            &&& le_u32_value(f) == encode_utf8(text).len()
            &&& f.skip(4) == encode_utf8(text)
        }),
{
    let n = encode_utf8(text).len() as u32;
    lemma_le_u32_roundtrip(n);
    let f = sized_text(text);
    assert(f[0] == le_bytes_u32(n)[0]);
    assert(f[1] == le_bytes_u32(n)[1]);
    assert(f[2] == le_bytes_u32(n)[2]);
    assert(f[3] == le_bytes_u32(n)[3]);
    assert(f.skip(4) =~= encode_utf8(text));
}

/// A message id is six bytes, its first byte has the six high bits set, and
/// its last four bytes are the bytes 4 to 7 of the little-endian time.
pub proof fn lemma_message_id_shape(millis: u64, random: Seq<u8>)
    requires
        random.len() == 3,
    ensures
        message_id(millis, random).len() == 6,
        message_id(millis, random)[0] & 0xfc == 0xfc,
        message_id(millis, random)[1] == random[2],
        message_id(millis, random).subrange(2, 6) == le_bytes_u64(millis).subrange(4, 8),
{
    let b = random[0];
    assert((b | 0xfc) & 0xfc == 0xfc) by (bit_vector);
    assert(message_id(millis, random).subrange(2, 6) =~= le_bytes_u64(millis).subrange(4, 8));
}

/// A subscription id is four bytes: the two random bytes, then the bytes 4
/// and 5 of the little-endian time.
pub proof fn lemma_subscription_id_shape(millis: u64, random: Seq<u8>)
    requires
        random.len() == 2,
    ensures
        subscription_id(millis, random).len() == 4,
        subscription_id(millis, random).take(2) == random,
        subscription_id(millis, random).subrange(2, 4) == le_bytes_u64(millis).subrange(4, 6),
{
    assert(subscription_id(millis, random).take(2) =~= random);
    assert(subscription_id(millis, random).subrange(2, 4) =~= le_bytes_u64(millis).subrange(4, 6));
}

} // verus!
