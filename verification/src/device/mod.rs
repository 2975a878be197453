use vstd::prelude::*;

pub mod active_state;
pub mod error;
pub mod handler;
pub mod param_update;
pub mod registry;
pub mod sender;
pub mod spawner;

verus! {

/// Identifier of a device: a UUID, held as its 128-bit value.
#[derive(Debug, Clone, Copy, PartialEq, Eq, Hash, PartialOrd, Ord)]
pub struct DeviceId(pub u128);

/// Lower-case hexadecimal digit of `d` in `0..16`.
pub open spec fn hex_digit(d: u128) -> char {
    if d < 10 {
        ((d + 48) as u8) as char
    } else {
        ((d + 87) as u8) as char
    }
}

/// The `k`-th hexadecimal digit of `v`, counted from the most significant one.
pub open spec fn uuid_nibble(v: u128, k: int) -> u128 {
    (v >> ((4 * (31 - k)) as u128)) & 0xf
}

/// The hyphenated lower-case text of a UUID, `xxxxxxxx-xxxx-xxxx-xxxx-xxxxxxxxxxxx`.
pub open spec fn uuid_text(v: u128) -> Seq<char> {
    Seq::new(
        36,
        |j: int|
            if j == 8 || j == 13 || j == 18 || j == 23 {
                '-'
            } else {
                let k = if j < 8 {
                    j
                } else if j < 13 {
                    j - 1
                } else if j < 18 {
                    j - 2
                } else if j < 23 {
                    j - 3
                } else {
                    j - 4
                };
                hex_digit(uuid_nibble(v, k))
            },
    )
}

/// Calls `uuid::Uuid::to_string` on the UUID with value `v`: its `Display` writes
/// the hyphenated lower-case form of the big-endian bytes.
#[verifier::external_body]
fn uuid_to_string(v: u128) -> (r: String)
    ensures
        r@ == uuid_text(v),
{
    uuid::Uuid::from_u128(v).to_string()
}

/// Calls `uuid::Uuid::new_v4`: a random UUID whose version nibble is 4 and whose
/// variant bits are `10`. Nothing else is known of the value.
#[verifier::external_body]
fn uuid_new_v4() -> (r: u128)
    ensures
        (r >> 76u128) & 0xf == 4,
        (r >> 62u128) & 0x3 == 2,
{
    uuid::Uuid::new_v4().as_u128()
}

/// What `uuid::Uuid::from_str` gives for `text`: the value of the UUID, or `None`
/// when the text is no UUID.
pub uninterp spec fn uuid_parsed(text: Seq<char>) -> Option<u128>;

/// Calls `uuid::Uuid::from_str`. Its documentation promises that every format the
/// crate writes is read back, so the hyphenated text of `v` gives `v`.
#[verifier::external_body]
fn uuid_parse(text: &str) -> (r: Option<u128>)
    ensures
        r == uuid_parsed(text@),
        forall|v: u128| #[trigger] uuid_text(v) == text@ ==> r == Some(v),
{
    <uuid::Uuid as std::str::FromStr>::from_str(text).ok().map(|u| u.as_u128())
}

impl DeviceId {
    /// The nil UUID, all bits zero.
    pub fn nil() -> (r: DeviceId)
        ensures
            r.0 == 0,
    {
        DeviceId(0)
    }

    /// A fresh random (version 4) identifier.
    pub fn new_v4() -> (r: DeviceId)
        ensures
            (r.0 >> 76u128) & 0xf == 4,
            (r.0 >> 62u128) & 0x3 == 2,
    {
        DeviceId(uuid_new_v4())
    }

    /// Reads an identifier from the text of a UUID.
    pub fn parse(text: &str) -> (r: Option<DeviceId>)
        ensures
            r == match uuid_parsed(text@) {
                Some(v) => Some(DeviceId(v)),
                None => None::<DeviceId>,
            },
            forall|v: u128| #[trigger] uuid_text(v) == text@ ==> r == Some(DeviceId(v)),
    {
        match uuid_parse(text) {
            Some(v) => Some(DeviceId(v)),
            None => None,
        }
    }

    /// The hyphenated lower-case text of the identifier.
    pub fn to_text(&self) -> (r: String)
        ensures
            r@ == uuid_text(self.0),
    {
        uuid_to_string(self.0)
    }
}

} // verus!
