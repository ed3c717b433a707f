//! Points in time and identifiers, as the library stores them: plain
//! integers taken from `chrono` and `uuid`.
use vstd::prelude::*;

verus! {

/// A point in time: whole seconds since the Unix epoch and the nanoseconds
/// past that second, as `chrono::DateTime<Utc>` reports them.
#[derive(Clone, Copy, Debug, PartialEq, Eq, Structural)]
pub struct Timestamp {
    pub seconds: i64,
    pub nanos: u32,
}

impl Timestamp {
    /// `self` comes strictly before `other` (seconds first, then nanoseconds).
    pub open spec fn before(self, other: Timestamp) -> bool {
        self.seconds < other.seconds || (self.seconds == other.seconds && self.nanos
            < other.nanos)
    }

    /// `self` comes no later than `other`.
    pub open spec fn not_after(self, other: Timestamp) -> bool {
        !other.before(self)
    }

    /// The signed distance from `self` to `later`, in nanoseconds.
    pub open spec fn nanos_until(self, later: Timestamp) -> int {
        (later.seconds - self.seconds) * 1_000_000_000 + (later.nanos - self.nanos)
    }

    /// Whether `self` comes strictly before `other`.
    pub fn is_before(&self, other: &Timestamp) -> (r: bool)
        ensures
            r == self.before(*other),
    {
        self.seconds < other.seconds || (self.seconds == other.seconds && self.nanos
            < other.nanos)
    }

    /// The signed distance from `self` to `later`, in nanoseconds.
    pub fn duration_until(&self, later: &Timestamp) -> (r: i128)
        ensures
            r == self.nanos_until(*later),
    {
        let secs: i128 = (later.seconds as i128) - (self.seconds as i128);
        let ns: i128 = (later.nanos as i128) - (self.nanos as i128);
        assert(-0x1_0000_0000_0000_0000i128 <= secs <= 0x1_0000_0000_0000_0000i128);
        secs * 1_000_000_000i128 + ns
    }
}

/// The current time.
///
/// Trusted: calls `chrono::Utc::now` and reads `timestamp` and
/// `timestamp_subsec_nanos`. chrono builds the value from the system clock
/// through `DateTime::from_timestamp(secs as i64, subsec_nanos).unwrap()`,
/// so what comes back is never before the epoch, lies inside chrono's
/// year range (below 2^43 seconds) and has fewer than 10^9 nanoseconds.
/// Which instant comes back is not stated: it is the clock's. chrono panics
/// when the system clock reads a time before the epoch.
#[verifier::external_body]
pub(crate) fn now() -> (r: Timestamp)
    ensures
        0 <= r.seconds < 0x800_0000_0000,
        r.nanos < 1_000_000_000,
{
    let t = chrono::Utc::now();
    Timestamp { seconds: t.timestamp(), nanos: t.timestamp_subsec_nanos() }
}

/// A version-4 (random) identifier: its four version bits (76 to 79) hold
/// 4 and its two variant bits (62 and 63) hold `0b10`.
pub open spec fn is_v4_id(id: u128) -> bool {
    (id >> 76u128) & 0xfu128 == 4u128 && (id >> 62u128) & 3u128 == 2u128
}

/// Law: a version-4 identifier is never the nil identifier 0.
pub proof fn law_v4_id_is_not_nil(id: u128)
    by (bit_vector)
    requires
        is_v4_id(id),
    ensures
        id != 0,
{
}

/// A fresh random identifier.
///
/// Trusted: calls `uuid::Uuid::new_v4` and reads it with `as_u128`.
/// `new_v4` masks random bits and sets the version to 4 and the variant to
/// RFC 4122 (`& 0xFFFFFFFFFFFF4FFFBFFFFFFFFFFFFFFF | 0x40008000000000000000`),
/// and `as_u128` reads the bytes back big-endian, so the value is a
/// version-4 identifier. Which one is random: nothing more is stated.
#[verifier::external_body]
pub(crate) fn new_id() -> (r: u128)
    ensures
        is_v4_id(r),
{
    uuid::Uuid::new_v4().as_u128()
}

/// The lowercase hexadecimal digit for `d < 16`.
pub open spec fn hex_digit(d: nat) -> char {
    if d < 10 {
        (48 + d) as char
    } else {
        (87 + d) as char
    }
}

/// The last `width` hexadecimal digits of `v`, most significant first.
pub open spec fn hex_fixed(v: nat, width: nat) -> Seq<char>
    decreases width,
{
    if width == 0 {
        seq![]
    } else {
        hex_fixed(v / 16, (width - 1) as nat).push(hex_digit(v % 16))
    }
}

/// The hyphenated form of an identifier: 32 lowercase hexadecimal digits
/// grouped 8-4-4-4-12.
pub open spec fn id_text(id: u128) -> Seq<char> {
    let h = hex_fixed(id as nat, 32);
    h.subrange(0, 8) + seq!['-'] + h.subrange(8, 12) + seq!['-'] + h.subrange(12, 16) + seq![
        '-',
    ] + h.subrange(16, 20) + seq!['-'] + h.subrange(20, 32)
}

/// The text of an identifier, as `Uuid` displays it.
///
/// Trusted: calls `uuid::Uuid::from_u128` and `to_string`. uuid's
/// `Display` writes the hyphenated lowercase form, the value's bytes
/// most significant first, which is `id_text`.
#[verifier::external_body]
pub(crate) fn id_string(id: u128) -> (r: String)
    ensures
        r@ == id_text(id),
{
    uuid::Uuid::from_u128(id).to_string()
}

} // verus!
