//! Identifiers of nodes and sessions: 128-bit UUIDs.
use vstd::arithmetic::power::pow;
use vstd::prelude::*;

verus! {

/// The value that a UUID text denotes, in any of the textual forms of a UUID; `None` where the
/// text has none of these forms.
pub uninterp spec fn parsed_uuid(text: Seq<char>) -> Option<u128>;

/// The lower-case hexadecimal digit of a value below sixteen.
pub open spec fn hex_char(d: int) -> char {
    if d < 10 {
        (48 + d) as char
    } else {
        (87 + d) as char
    }
}

/// The hyphens that stand before position `i` of a hyphenated UUID.
pub open spec fn hyphens_before(i: int) -> int {
    (if i > 8 { 1int } else { 0 }) + (if i > 13 { 1int } else { 0 }) + (if i > 18 { 1int } else { 0 })
        + (if i > 23 { 1int } else { 0 })
}

/// The hyphenated form of a UUID: its thirty-two hexadecimal digits, the most significant first,
/// in groups of eight, four, four, four and twelve.
pub open spec fn hyphenated(value: u128) -> Seq<char> {
    Seq::new(
        36,
        |i: int|
            if i == 8 || i == 13 || i == 18 || i == 23 {
                '-'
            } else {
                hex_char((value as int / pow(16, (31 - (i - hyphens_before(i))) as nat)) % 16)
            },
    )
}

#[verifier::external_type_specification]
#[verifier::external_body]
pub struct ExUuidError(uuid::Error);

/// `Uuid::new_v4` draws a random UUID. Of every outcome only this is claimed: the four version
/// bits hold four, and the two variant bits hold two.
#[verifier::external_body]
fn random_uuid() -> (value: u128)
    ensures
        (value as int / 0x1000_0000_0000_0000_0000) % 16 == 4,
        (value as int / 0x4000_0000_0000_0000) % 4 == 2,
{
    uuid::Uuid::new_v4().as_u128()
}

/// `Uuid::parse_str` reads the textual forms of a UUID. The result is named by `parsed_uuid`;
/// claimed besides is that the hyphenated form of a value is read back as that value.
#[verifier::external_body]
fn parse_uuid(text: &str) -> (r: Result<u128, uuid::Error>)
    ensures
        r is Ok <==> parsed_uuid(text@) is Some,
        r is Ok ==> parsed_uuid(text@) == Some(r->Ok_0),
        forall|value: u128| text@ == #[trigger] hyphenated(value) ==> r is Ok && r->Ok_0 == value,
{
    uuid::Uuid::parse_str(text).map(|value| value.as_u128())
}

/// The `Display` form of a `Uuid` is its hyphenated form.
#[verifier::external_body]
fn uuid_to_text(value: u128) -> (text: String)
    ensures
        text@ == hyphenated(value),
{
    uuid::Uuid::from_u128(value).to_string()
}

/// A text that is no UUID.
#[derive(Clone, Copy, Debug, PartialEq, Eq, Structural)]
pub struct InvalidId;

/// Whether a value has the version and variant bits of a random UUID.
pub open spec fn is_random_uuid(value: u128) -> bool {
    &&& (value as int / 0x1000_0000_0000_0000_0000) % 16 == 4
    &&& (value as int / 0x4000_0000_0000_0000) % 4 == 2
}

/// The identifier of a node.
#[derive(Clone, Copy, Debug, PartialEq, Eq, Hash, Structural)]
pub struct NodeId(pub u128);

/// The identifier of a control session.
#[derive(Clone, Copy, Debug, PartialEq, Eq, Hash, Structural)]
pub struct SessionId(pub u128);

impl NodeId {
    /// A fresh random identifier.
    pub fn new() -> (id: Self)
        ensures
            is_random_uuid(id.0),
    {
        NodeId(random_uuid())
    }

    /// Reads an identifier from any textual form of a UUID.
    pub fn from_str(value: &str) -> (r: Result<NodeId, InvalidId>)
        ensures
            match parsed_uuid(value@) {
                Some(id) => r == Ok::<NodeId, InvalidId>(NodeId(id)),
                None => r == Err::<NodeId, InvalidId>(InvalidId),
            },
            forall|id: u128| value@ == #[trigger] hyphenated(id) ==> r == Ok::<NodeId, InvalidId>(NodeId(id)),
    {
        match parse_uuid(value) {
            Ok(id) => Ok(NodeId(id)),
            Err(_) => Err(InvalidId),
        }
    }

    /// The hyphenated form of the identifier.
    pub fn to_text(&self) -> (text: String)
        ensures
            text@ == hyphenated(self.0),
    {
        uuid_to_text(self.0)
    }
}

impl Default for NodeId {
    fn default() -> (id: Self)
        ensures
            is_random_uuid(id.0),
    {
        Self::new()
    }
}

impl SessionId {
    /// A fresh random identifier.
    pub fn new() -> (id: Self)
        ensures
            is_random_uuid(id.0),
    {
        SessionId(random_uuid())
    }

    /// Reads an identifier from any textual form of a UUID.
    pub fn from_str(value: &str) -> (r: Result<SessionId, InvalidId>)
        ensures
            match parsed_uuid(value@) {
                Some(id) => r == Ok::<SessionId, InvalidId>(SessionId(id)),
                None => r == Err::<SessionId, InvalidId>(InvalidId),
            },
            forall|id: u128|
                value@ == #[trigger] hyphenated(id) ==> r == Ok::<SessionId, InvalidId>(SessionId(id)),
    {
        match parse_uuid(value) {
            Ok(id) => Ok(SessionId(id)),
            Err(_) => Err(InvalidId),
        }
    }

    /// The hyphenated form of the identifier.
    pub fn to_text(&self) -> (text: String)
        ensures
            text@ == hyphenated(self.0),
    {
        uuid_to_text(self.0)
    }
}

impl Default for SessionId {
    fn default() -> (id: Self)
        ensures
            is_random_uuid(id.0),
    {
        Self::new()
    }
}

/// The text of an identifier is its digits in groups of eight, four, four, four and twelve.
pub proof fn law_the_text_of_an_identifier(id: NodeId, text: String, session: SessionId, other: String)
    requires
        call_ensures(NodeId::to_text, (&id,), text),
        call_ensures(SessionId::to_text, (&session,), other),
    ensures
        text@.len() == 36,
        text@[8] == '-' && text@[13] == '-' && text@[18] == '-' && text@[23] == '-',
        id.0 == session.0 ==> text@ == other@,
        text@[35] == hex_char(id.0 as int % 16),
{
    assert(pow(16, 0) == 1) by {
        vstd::arithmetic::power::lemma_pow0(16);
    }
}

} // verus!
