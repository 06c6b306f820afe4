//! UTC instants, held as Unix seconds and nanoseconds.

use vstd::prelude::*;

verus! {

/// The earliest second that the calendar library can represent
/// (January 1 of year -262143, 00:00:00 UTC).
pub const MIN_UNIX_SECONDS: i64 = -8334601228800i64;

/// The latest second that the calendar library can represent
/// (December 31 of year 262142, 23:59:59 UTC).
pub const MAX_UNIX_SECONDS: i64 = 8210266876799i64;

/// Whether a second count and a nanosecond fraction name a representable
/// instant. A leap second is written as the 59th second of a minute with a
/// nanosecond count of one second or more (below two seconds).
pub open spec fn valid_unix_time(secs: i64, nanos: u32) -> bool {
    &&& MIN_UNIX_SECONDS <= secs <= MAX_UNIX_SECONDS
    &&& (nanos < 1_000_000_000 || (nanos < 2_000_000_000 && secs % 60 == 59))
}

/// The RFC 3339 text (`YYYY-MM-DDTHH:MM:SS[.fraction]+00:00`) that the
/// calendar library writes for an instant.
pub uninterp spec fn chrono_rfc3339(secs: i64, nanos: u32) -> Seq<char>;

/// An instant in UTC.
#[derive(Clone, Copy, Debug, PartialEq, Eq, Structural)]
pub struct Timestamp {
    secs: i64,
    nanos: u32,
}

/// `chrono::Utc::now`, split into its Unix seconds and sub-second
/// nanoseconds. The system clock decides the value; the calendar library
/// builds it with `DateTime::from_timestamp` from a duration since the Unix
/// epoch, so the instant is representable (the call panics otherwise).
/// Nothing else is said of it.
#[verifier::external_body]
fn utc_now_parts() -> (r: (i64, u32))
    ensures
        valid_unix_time(r.0, r.1),
{
    let now = chrono::Utc::now();
    (now.timestamp(), now.timestamp_subsec_nanos())
}

/// `chrono::DateTime::<Utc>::to_rfc3339` of the instant built by
/// `DateTime::from_timestamp(secs, nanos)`; the construction succeeds on
/// every representable instant, leap seconds included (their second is
/// written as `60`), and the text is named by `chrono_rfc3339`.
#[verifier::external_body]
fn rfc3339_of(secs: i64, nanos: u32) -> (r: String)
    requires
        valid_unix_time(secs, nanos),
    ensures
        r@ == chrono_rfc3339(secs, nanos),
{
    chrono::DateTime::from_timestamp(secs, nanos).expect("representable instant").to_rfc3339()
}

impl Timestamp {
    #[verifier::type_invariant]
    spec fn representable(self) -> bool {
        valid_unix_time(self.secs, self.nanos)
    }

    /// Seconds since the Unix epoch.
    pub closed spec fn seconds(self) -> i64 {
        self.secs
    }

    /// Nanoseconds past the second.
    pub closed spec fn subsec_nanos(self) -> u32 {
        self.nanos
    }

    /// The RFC 3339 text of this instant.
    pub closed spec fn rfc3339(self) -> Seq<char> {
        chrono_rfc3339(self.secs, self.nanos)
    }

    /// The instant `secs` seconds and `nanos` nanoseconds after the Unix
    /// epoch, or `None` where it is out of range, or `nanos` is a second or
    /// more outside a leap second (the 59th second of a minute), or two
    /// seconds or more.
    pub fn from_unix(secs: i64, nanos: u32) -> (r: Option<Timestamp>)
        ensures
            r is Some <==> valid_unix_time(secs, nanos),
            r matches Some(t) ==> t.seconds() == secs && t.subsec_nanos() == nanos,
    {
        if secs < MIN_UNIX_SECONDS || secs > MAX_UNIX_SECONDS || nanos >= 2_000_000_000 {
            return None;
        }
        if nanos < 1_000_000_000 {
            return Some(Timestamp { secs, nanos });
        }
        let offset: u64 = (secs - MIN_UNIX_SECONDS) as u64;
        assert(offset % 60 == secs % 60);
        if offset % 60 == 59 {
            Some(Timestamp { secs, nanos })
        } else {
            None
        }
    }

    /// The current instant, as the system clock gives it.
    pub fn now() -> (r: Timestamp)
        ensures
            valid_unix_time(r.seconds(), r.subsec_nanos()),
    {
        let (secs, nanos) = utc_now_parts();
        Timestamp { secs, nanos }
    }

    /// Seconds since the Unix epoch.
    pub fn unix_seconds(&self) -> (r: i64)
        ensures
            r == self.seconds(),
    {
        self.secs
    }

    /// Nanoseconds past the second.
    pub fn unix_subsec_nanos(&self) -> (r: u32)
        ensures
            r == self.subsec_nanos(),
    {
        self.nanos
    }

    /// The RFC 3339 text of this instant, with a `+00:00` offset.
    pub fn to_rfc3339(&self) -> (r: String)
        ensures
            r@ == self.rfc3339(),
    {
        proof {
            use_type_invariant(self);
        }
        rfc3339_of(self.secs, self.nanos)
    }
}

} // verus!
