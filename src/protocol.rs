//! The four protocol variants, the error-type family paired with each, and the
//! per-protocol choices the declaration compiler consults.

use vstd::prelude::*;
use crate::names::str_eq;

verus! {

/// A wire-protocol family; the `ec2` protocol is served by `Query`.
#[derive(PartialEq, Eq, Structural, Clone, Copy, Debug)]
pub enum Protocol {
    Json,
    Query,
    RestJson,
    RestXml,
}

/// How error responses of a protocol are shaped.
#[derive(PartialEq, Eq, Structural, Clone, Copy, Debug)]
pub enum ErrorFamily {
    Json,
    Xml,
}

/// How a timestamp shape is represented.
#[derive(PartialEq, Eq, Structural, Clone, Copy, Debug)]
pub enum TimestampRepr {
    /// Seconds since the epoch, as a 64-bit float.
    EpochSeconds,
    /// Formatted text.
    Text,
}

/// The decorations of a record declaration beyond the debug, clone and default
/// ones every record carries.
#[derive(PartialEq, Eq, Structural, Clone, Copy, Debug)]
pub struct StructAttributes {
    /// Derives automatic serialization.
    pub serialize: bool,
    /// Derives automatic deserialization.
    pub deserialize: bool,
}

/// The protocol and error family that a protocol name selects.
pub open spec fn protocol_pair(p: Seq<char>) -> Option<(Protocol, ErrorFamily)> {
    if p == "json"@ {
        Some((Protocol::Json, ErrorFamily::Json))
    } else if p == "query"@ || p == "ec2"@ {
        Some((Protocol::Query, ErrorFamily::Xml))
    } else if p == "rest-json"@ {
        Some((Protocol::RestJson, ErrorFamily::Json))
    } else if p == "rest-xml"@ {
        Some((Protocol::RestXml, ErrorFamily::Xml))
    } else {
        None
    }
}

/// Selects the protocol and error family for a protocol name; `None` for a name
/// outside the five known ones.
pub fn select_protocol(p: &str) -> (r: Option<(Protocol, ErrorFamily)>)
    ensures
        r == protocol_pair(p@),
{
    if str_eq(p, "json") {
        Some((Protocol::Json, ErrorFamily::Json))
    } else if str_eq(p, "query") || str_eq(p, "ec2") {
        Some((Protocol::Query, ErrorFamily::Xml))
    } else if str_eq(p, "rest-json") {
        Some((Protocol::RestJson, ErrorFamily::Json))
    } else if str_eq(p, "rest-xml") {
        Some((Protocol::RestXml, ErrorFamily::Xml))
    } else {
        None
    }
}

/// The `ec2` protocol name selects exactly the pair that `query` selects.
pub proof fn lemma_ec2_selects_query()
    ensures
        protocol_pair("ec2"@) == protocol_pair("query"@),
        protocol_pair("ec2"@) == Some((Protocol::Query, ErrorFamily::Xml)),
{
    reveal_strlit("ec2");
    reveal_strlit("json");
    reveal_strlit("query");
    assert("ec2"@ != "json"@) by {
        assert("ec2"@.len() != "json"@.len());
    }
    assert("query"@ != "json"@) by {
        assert("query"@.len() != "json"@.len());
    }
}

impl Protocol {
    pub open spec fn spec_timestamp_type(self) -> TimestampRepr {
        match self {
            Protocol::Json | Protocol::RestJson => TimestampRepr::EpochSeconds,
            Protocol::Query | Protocol::RestXml => TimestampRepr::Text,
        }
    }

    /// The representation of timestamp shapes under this protocol.
    pub fn timestamp_type(&self) -> (r: TimestampRepr)
        ensures
            r == self.spec_timestamp_type(),
    {
        match self {
            Protocol::Json | Protocol::RestJson => TimestampRepr::EpochSeconds,
            Protocol::Query | Protocol::RestXml => TimestampRepr::Text,
        }
    }

    /// Whether the protocol encodes through its own serializer and deserializer
    /// bodies rather than through derived decorations.
    pub open spec fn spec_custom_bodies(self) -> bool {
        self == Protocol::Query || self == Protocol::RestXml
    }

    pub fn custom_bodies(&self) -> (r: bool)
        ensures
            r == self.spec_custom_bodies(),
    {
        match self {
            Protocol::Query | Protocol::RestXml => true,
            _ => false,
        }
    }

    pub open spec fn spec_struct_attributes(self, serialized: bool, deserialized: bool) -> StructAttributes {
        if self.spec_custom_bodies() {
            StructAttributes { serialize: false, deserialize: false }
        } else {
            StructAttributes { serialize: serialized, deserialize: deserialized }
        }
    }

    /// The decorations of a record that needs serialization, deserialization,
    /// both or neither.
    pub fn generate_struct_attributes(&self, serialized: bool, deserialized: bool) -> (r:
        StructAttributes)
        ensures
            r == self.spec_struct_attributes(serialized, deserialized),
    {
        if self.custom_bodies() {
            StructAttributes { serialize: false, deserialize: false }
        } else {
            StructAttributes { serialize: serialized, deserialize: deserialized }
        }
    }
}

} // verus!
