//! Identifiers of devices, messages, offers and activations.
//!
//! Each is a 128-bit universally unique identifier.
use vstd::prelude::*;

verus! {

#[verifier::external_type_specification]
#[verifier::external_body]
pub struct ExUuidError(uuid::Error);

/// The lower-case hexadecimal digit of `d`.
pub open spec fn hex_digit(d: int) -> char {
    if d < 10 {
        (('0' as u8) + d) as char
    } else {
        (('a' as u8) + (d - 10)) as char
    }
}

/// The `k`-th of the 32 hexadecimal digits of `v`, from the most significant on.
pub open spec fn hex_digit_at(v: u128, k: int) -> char {
    hex_digit(((v >> ((124 - 4 * k) as u128)) & 0xf) as int)
}

/// The hyphenated form: groups of 8, 4, 4, 4 and 12 lower-case hexadecimal digits.
pub open spec fn hyphenated(v: u128) -> Seq<char> {
    Seq::new(
        36,
        |i: int|
            if i == 8 || i == 13 || i == 18 || i == 23 {
                '-'
            } else if i < 8 {
                hex_digit_at(v, i)
            } else if i < 13 {
                hex_digit_at(v, i - 1)
            } else if i < 18 {
                hex_digit_at(v, i - 2)
            } else if i < 23 {
                hex_digit_at(v, i - 3)
            } else {
                hex_digit_at(v, i - 4)
            },
    )
}

/// Whether `v` carries the version and variant bits of a random identifier.
pub open spec fn random_shape(v: u128) -> bool {
    &&& (v >> 76) & 0xf == 4
    &&& (v >> 62) & 0x3 == 2
}

/// What `uuid::Uuid::parse_str` reads in a text, or `None` where it reports an error.
pub uninterp spec fn parsed_uuid(text: Seq<char>) -> Option<u128>;

/// The value that was read, if any.
pub open spec fn read_value(r: Result<u128, uuid::Error>) -> Option<u128> {
    match r {
        Ok(v) => Some(v),
        Err(_) => None,
    }
}

/// `uuid::Uuid::new_v4` and `as_u128`: 122 random bits under the version and
/// variant bits of a random identifier.
#[verifier::external_body]
fn random_uuid() -> (v: u128)
    ensures
        random_shape(v),
{
    uuid::Uuid::new_v4().as_u128()
}

/// `uuid::Uuid::from_u128` and its `Display`: the hyphenated form in lower case.
#[verifier::external_body]
fn format_uuid(v: u128) -> (s: String)
    ensures
        s@ == hyphenated(v),
{
    uuid::Uuid::from_u128(v).to_string()
}

/// `uuid::Uuid::parse_str` and `as_u128`: the outcome depends on the text alone,
/// and the hyphenated form of a value is read as that value.
#[verifier::external_body]
fn parse_uuid(text: &str) -> (r: Result<u128, uuid::Error>)
    ensures
        read_value(r) == parsed_uuid(text@),
        forall|v: u128| text@ == #[trigger] hyphenated(v) ==> read_value(r) == Some(v),
{
    uuid::Uuid::parse_str(text).map(|id| id.as_u128())
}

/// The text is not an identifier.
#[derive(Debug, Clone, Copy, PartialEq, Eq, Structural)]
pub struct IdParseError;

/// Reads an identifier.
pub fn read_id(text: &str) -> (r: Result<u128, IdParseError>)
    ensures
        r == (match parsed_uuid(text@) {
            Some(v) => Ok::<u128, IdParseError>(v),
            None => Err(IdParseError),
        }),
        forall|v: u128| text@ == #[trigger] hyphenated(v) ==> r == Ok::<u128, IdParseError>(v),
{
    match parse_uuid(text) {
        Ok(v) => Ok(v),
        Err(_) => Err(IdParseError),
    }
}

/// The hyphenated form is 36 ASCII characters, none of which separates path components.
pub proof fn lemma_hyphenated_shape(v: u128)
    ensures
        hyphenated(v).len() == 36,
        forall|i: int|
            0 <= i < 36 ==> {
                let c = #[trigger] hyphenated(v)[i];
                c == '-' || '0' <= c <= '9' || 'a' <= c <= 'f'
            },
{
    assert forall|i: int| 0 <= i < 36 implies ({
        let c = #[trigger] hyphenated(v)[i];
        c == '-' || '0' <= c <= '9' || 'a' <= c <= 'f'
    }) by {
        let k = if i < 8 {
            i
        } else if i < 13 {
            i - 1
        } else if i < 18 {
            i - 2
        } else if i < 23 {
            i - 3
        } else {
            i - 4
        };
        let n: u128 = (124 - 4 * k) as u128;
        let d: u128 = (v >> n) & 0xf;
        assert(d <= 15) by (bit_vector)
            requires
                d == (v >> n) & 0xf,
        ;
    }
}

/// One installation of the shelf.
#[derive(Debug, Clone, Copy, PartialEq, Eq, Hash, Structural)]
pub struct DeviceId(pub u128);

impl DeviceId {
    /// A fresh random identifier.
    #[must_use]
    pub fn new() -> (r: Self)
        ensures
            random_shape(r.0),
    {
        DeviceId(random_uuid())
    }

    #[must_use]
    pub fn from_uuid(value: u128) -> (r: Self)
        ensures
            r.0 == value,
    {
        DeviceId(value)
    }

    #[must_use]
    pub fn as_uuid(self) -> (r: u128)
        ensures
            r == self.0,
    {
        self.0
    }

    /// The hyphenated form.
    #[must_use]
    pub fn text(self) -> (s: String)
        ensures
            s@ == hyphenated(self.0),
    {
        format_uuid(self.0)
    }

    /// Reads an identifier from text.
    pub fn from_str(text: &str) -> (r: Result<Self, IdParseError>)
        ensures
            r == (match parsed_uuid(text@) {
                Some(v) => Ok::<DeviceId, IdParseError>(DeviceId(v)),
                None => Err(IdParseError),
            }),
            forall|id: DeviceId|
                text@ == #[trigger] hyphenated(id.0) ==> r == Ok::<DeviceId, IdParseError>(id),
    {
        match read_id(text) {
            Ok(v) => Ok(DeviceId(v)),
            Err(e) => Err(e),
        }
    }
}

impl Default for DeviceId {
    /// A fresh random identifier, as `new` gives.
    fn default() -> (r: Self)
        ensures
            random_shape(r.0),
    {
        DeviceId::new()
    }
}

/// One delivered message.
#[derive(Debug, Clone, Copy, PartialEq, Eq, Hash, Structural)]
pub struct MessageId(pub u128);

impl MessageId {
    /// A fresh random identifier.
    #[must_use]
    pub fn new() -> (r: Self)
        ensures
            random_shape(r.0),
    {
        MessageId(random_uuid())
    }

    #[must_use]
    pub fn from_uuid(value: u128) -> (r: Self)
        ensures
            r.0 == value,
    {
        MessageId(value)
    }

    #[must_use]
    pub fn as_uuid(self) -> (r: u128)
        ensures
            r == self.0,
    {
        self.0
    }

    /// The hyphenated form.
    #[must_use]
    pub fn text(self) -> (s: String)
        ensures
            s@ == hyphenated(self.0),
    {
        format_uuid(self.0)
    }

    /// Reads an identifier from text.
    pub fn from_str(text: &str) -> (r: Result<Self, IdParseError>)
        ensures
            r == (match parsed_uuid(text@) {
                Some(v) => Ok::<MessageId, IdParseError>(MessageId(v)),
                None => Err(IdParseError),
            }),
            forall|id: MessageId|
                text@ == #[trigger] hyphenated(id.0) ==> r == Ok::<MessageId, IdParseError>(id),
    {
        match read_id(text) {
            Ok(v) => Ok(MessageId(v)),
            Err(e) => Err(e),
        }
    }
}

impl Default for MessageId {
    /// A fresh random identifier, as `new` gives.
    fn default() -> (r: Self)
        ensures
            random_shape(r.0),
    {
        MessageId::new()
    }
}

/// One offer of its origin.
#[derive(Debug, Clone, Copy, PartialEq, Eq, Hash, Structural)]
pub struct OfferId(pub u128);

impl OfferId {
    /// A fresh random identifier.
    #[must_use]
    pub fn new() -> (r: Self)
        ensures
            random_shape(r.0),
    {
        OfferId(random_uuid())
    }

    #[must_use]
    pub fn from_uuid(value: u128) -> (r: Self)
        ensures
            r.0 == value,
    {
        OfferId(value)
    }

    #[must_use]
    pub fn as_uuid(self) -> (r: u128)
        ensures
            r == self.0,
    {
        self.0
    }

    /// The hyphenated form.
    #[must_use]
    pub fn text(self) -> (s: String)
        ensures
            s@ == hyphenated(self.0),
    {
        format_uuid(self.0)
    }

    /// Reads an identifier from text.
    pub fn from_str(text: &str) -> (r: Result<Self, IdParseError>)
        ensures
            r == (match parsed_uuid(text@) {
                Some(v) => Ok::<OfferId, IdParseError>(OfferId(v)),
                None => Err(IdParseError),
            }),
            forall|id: OfferId|
                text@ == #[trigger] hyphenated(id.0) ==> r == Ok::<OfferId, IdParseError>(id),
    {
        match read_id(text) {
            Ok(v) => Ok(OfferId(v)),
            Err(e) => Err(e),
        }
    }
}

impl Default for OfferId {
    /// A fresh random identifier, as `new` gives.
    fn default() -> (r: Self)
        ensures
            random_shape(r.0),
    {
        OfferId::new()
    }
}

/// One explicit activation of a card.
#[derive(Debug, Clone, Copy, PartialEq, Eq, Hash, Structural)]
pub struct ActivationId(pub u128);

impl ActivationId {
    /// A fresh random identifier.
    #[must_use]
    pub fn new() -> (r: Self)
        ensures
            random_shape(r.0),
    {
        ActivationId(random_uuid())
    }

    #[must_use]
    pub fn from_uuid(value: u128) -> (r: Self)
        ensures
            r.0 == value,
    {
        ActivationId(value)
    }

    #[must_use]
    pub fn as_uuid(self) -> (r: u128)
        ensures
            r == self.0,
    {
        self.0
    }

    /// The hyphenated form.
    #[must_use]
    pub fn text(self) -> (s: String)
        ensures
            s@ == hyphenated(self.0),
    {
        format_uuid(self.0)
    }

    /// Reads an identifier from text.
    pub fn from_str(text: &str) -> (r: Result<Self, IdParseError>)
        ensures
            r == (match parsed_uuid(text@) {
                Some(v) => Ok::<ActivationId, IdParseError>(ActivationId(v)),
                None => Err(IdParseError),
            }),
            forall|id: ActivationId|
                text@ == #[trigger] hyphenated(id.0) ==> r == Ok::<ActivationId, IdParseError>(id),
    {
        match read_id(text) {
            Ok(v) => Ok(ActivationId(v)),
            Err(e) => Err(e),
        }
    }
}

impl Default for ActivationId {
    /// A fresh random identifier, as `new` gives.
    fn default() -> (r: Self)
        ensures
            random_shape(r.0),
    {
        ActivationId::new()
    }
}

} // verus!
