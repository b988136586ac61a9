use vstd::prelude::*;

use avro_rs::Schema;

verus! {

#[verifier::external_type_specification]
#[verifier::external_body]
pub struct ExSchema(Schema);

#[verifier::external_type_specification]
#[verifier::external_body]
pub struct ExAvroError(avro_rs::Error);

/// Whether avro-rs takes `text` for a schema: it is JSON, and the JSON
/// defines a schema.
pub uninterp spec fn avro_schema_accepts(text: Seq<char>) -> bool;

/// A schema together with the definition text that avro-rs parsed it from,
/// where it was parsed here. Only `parse_schema_text` gives a schema a text;
/// a schema handed in whole has none.
pub struct ParsedSchema {
    schema: Schema,
    source: Option<String>,
}

impl ParsedSchema {
    /// The schema.
    pub closed spec fn value(&self) -> Schema {
        self.schema
    }

    /// The definition text that avro-rs parsed the schema from; `None` for a
    /// schema that was handed in whole.
    pub closed spec fn parsed_from(&self) -> Option<Seq<char>> {
        match self.source {
            Some(text) => Some(text@),
            None => None,
        }
    }

    /// A schema handed in whole, with no text that it was parsed from.
    pub fn given(schema: Schema) -> (p: ParsedSchema)
        ensures
            p.value() == schema,
            p.parsed_from() is None,
    {
        ParsedSchema { schema, source: None }
    }

    /// The schema.
    pub fn schema(&self) -> (r: &Schema)
        ensures
            *r == self.value(),
    {
        &self.schema
    }
}

/// Calls `avro_rs::Schema::parse_str` on a definition and keeps the
/// definition with the schema that comes back. Trusted to succeed exactly on
/// the texts that the name `avro_schema_accepts` holds of, and to give back
/// the schema with `text` as the text it was parsed from; the schema itself
/// is opaque here.
#[verifier::external_body]
pub(crate) fn parse_schema_text(text: String) -> (r: Result<ParsedSchema, avro_rs::Error>)
    ensures
        r is Ok <==> avro_schema_accepts(text@),
        r matches Ok(p) ==> p.parsed_from() == Some(text@),
{
    match Schema::parse_str(&text) {
        Ok(schema) => Ok(ParsedSchema { schema, source: Some(text) }),
        Err(e) => Err(e),
    }
}

} // verus!
