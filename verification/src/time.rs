//! Points in time. The calendar belongs to `chrono`; the library keeps a time
//! as the two numbers that `chrono` makes one from.

use vstd::prelude::*;

verus! {

/// Whether `chrono::DateTime::from_timestamp` makes a time of the two
/// numbers: the seconds lie between the first second of the year -262143
/// and the last second of the year 262142, and the nanoseconds stay below
/// two seconds, and below one but in a second that ends a minute, where a
/// leap second is written.
pub open spec fn representable(secs: int, nanos: int) -> bool {
    &&& -8_334_601_228_800 <= secs <= 8_210_266_876_799
    &&& 0 <= nanos < 2_000_000_000
    &&& (nanos >= 1_000_000_000 ==> secs % 60 == 59)
}

/// The text of `DateTime::to_rfc3339` for the time made of the two numbers.
pub uninterp spec fn rfc3339_text(secs: int, nanos: int) -> Seq<char>;

/// The text of `DateTime::to_rfc3339_opts` with `SecondsFormat::AutoSi` and
/// `Z` for the time made of the two numbers.
pub uninterp spec fn rfc3339_z_text(secs: int, nanos: int) -> Seq<char>;

/// The time that `chrono` reads from a text, as seconds and nanoseconds, if
/// it reads one.
pub uninterp spec fn parsed_time(text: Seq<char>) -> Option<(int, int)>;

/// A point in time: whole seconds since 1970-01-01T00:00:00Z and nanoseconds
/// within the second. Only times that `chrono` can represent exist.
#[derive(Debug, Clone, Copy)]
pub struct Timestamp {
    secs: i64,
    nanos: u32,
}

/// What a `Timestamp` holds.
pub struct TimeView {
    pub secs: int,
    pub nanos: int,
}

impl TimeView {
    /// Whether `self` is earlier than `other`, or the same time.
    pub open spec fn at_or_before(self, other: TimeView) -> bool {
        self.secs < other.secs || (self.secs == other.secs && self.nanos <= other.nanos)
    }

    /// Microseconds since the epoch.
    pub open spec fn micros(self) -> int {
        self.secs * 1_000_000 + self.nanos / 1_000
    }

    /// The time as RFC 3339 text with a numeric offset.
    pub open spec fn rfc3339(self) -> Seq<char> {
        rfc3339_text(self.secs, self.nanos)
    }

    /// The time as RFC 3339 text that ends in `Z`.
    pub open spec fn stored_text(self) -> Seq<char> {
        rfc3339_z_text(self.secs, self.nanos)
    }

    /// Whether the time is one that the system clock can read: a time that
    /// `chrono` represents, with less than a second of nanoseconds.
    pub open spec fn is_reading(self) -> bool {
        representable(self.secs, self.nanos) && self.nanos < 1_000_000_000
    }

    /// Whether the stored text of the time reads back as the same time.
    pub open spec fn reads_back(self) -> bool {
        read_time(self.stored_text()) == Some(self)
    }
}

/// Whether `text` is the RFC 3339 text of `time`, and `time` a reading of
/// the system clock.
pub open spec fn is_stamp_of(text: Seq<char>, time: TimeView) -> bool {
    time.is_reading() && text == time.rfc3339()
}

/// Whether `text` is the RFC 3339 text of a reading of the system clock.
pub open spec fn is_stamp(text: Seq<char>) -> bool {
    exists|time: TimeView| #[trigger] is_stamp_of(text, time)
}

/// The time that a text is read as, if it is read as one.
pub open spec fn read_time(text: Seq<char>) -> Option<TimeView> {
    match parsed_time(text) {
        Some((secs, nanos)) => Some(TimeView { secs, nanos }),
        None => None,
    }
}

impl View for Timestamp {
    type V = TimeView;

    closed spec fn view(&self) -> TimeView {
        TimeView { secs: self.secs as int, nanos: self.nanos as int }
    }
}

/// Calls `chrono::Utc::now` and takes the time apart with `timestamp` and
/// `timestamp_subsec_nanos`, which `from_timestamp` is documented to undo.
/// The clock of the system counts no leap seconds: the nanoseconds stay
/// below a second.
#[verifier::external_body]
fn chrono_now() -> (t: (i64, u32))
    ensures
        representable(t.0 as int, t.1 as int),
        t.1 < 1_000_000_000,
{
    let now = chrono::Utc::now();
    (now.timestamp(), now.timestamp_subsec_nanos())
}

/// Calls `DateTime::to_rfc3339`.
#[verifier::external_body]
fn chrono_rfc3339(secs: i64, nanos: u32) -> (text: String)
    requires
        representable(secs as int, nanos as int),
    ensures
        text@ == rfc3339_text(secs as int, nanos as int),
{
    chrono::DateTime::from_timestamp(secs, nanos).unwrap().to_rfc3339()
}

/// Calls `DateTime::to_rfc3339_opts` with `SecondsFormat::AutoSi` and `Z`.
#[verifier::external_body]
fn chrono_rfc3339_z(secs: i64, nanos: u32) -> (text: String)
    requires
        representable(secs as int, nanos as int),
    ensures
        text@ == rfc3339_z_text(secs as int, nanos as int),
{
    let time = chrono::DateTime::from_timestamp(secs, nanos).unwrap();
    time.to_rfc3339_opts(chrono::SecondsFormat::AutoSi, true)
}

/// Parses a time with `str::parse` into a `DateTime<FixedOffset>` and takes
/// it apart with `timestamp` and `timestamp_subsec_nanos`.
#[verifier::external_body]
fn chrono_parse(text: &str) -> (r: Option<(i64, u32)>)
    ensures
        match parsed_time(text@) {
            Some((secs, nanos)) => r == Some((secs as i64, nanos as u32)) && secs == secs as i64
                && nanos == nanos as u32 && representable(secs, nanos),
            None => r is None,
        },
{
    let time = text.parse::<chrono::DateTime<chrono::FixedOffset>>().ok()?;
    Some((time.timestamp(), time.timestamp_subsec_nanos()))
}

impl Timestamp {
    #[verifier::type_invariant]
    spec fn representable_by_chrono(self) -> bool {
        representable(self.secs as int, self.nanos as int)
    }

    /// The time of the two numbers, where they are a time that `chrono`
    /// represents.
    pub fn new(secs: i64, nanos: u32) -> (r: Option<Timestamp>)
        ensures
            match r {
                Some(t) => representable(secs as int, nanos as int) && t@ == (TimeView {
                    secs: secs as int,
                    nanos: nanos as int,
                }),
                None => !representable(secs as int, nanos as int),
            },
    {
        if secs < -8_334_601_228_800 || secs > 8_210_266_876_799 || nanos >= 2_000_000_000 {
            return None;
        }
        if nanos >= 1_000_000_000 {
            // The first second that can be represented begins a minute.
            let since_first: u64 = (secs + 8_334_601_228_800) as u64;
            if since_first % 60 != 59 {
                return None;
            }
        }
        Some(Timestamp { secs, nanos })
    }

    /// The current time of the system clock: a time that `chrono`
    /// represents, with less than a second of nanoseconds.
    pub fn now() -> (t: Timestamp)
        ensures
            representable(t@.secs, t@.nanos),
            t@.nanos < 1_000_000_000,
    {
        let (secs, nanos) = chrono_now();
        Timestamp { secs, nanos }
    }

    /// The RFC 3339 text of the time that the system clock reads.
    pub fn stamp() -> (text: String)
        ensures
            is_stamp(text@),
    {
        let now = Timestamp::now();
        let text = now.to_rfc3339();
        assert(is_stamp_of(text@, now@));
        text
    }

    /// Whole seconds since the epoch.
    pub fn secs(&self) -> (s: i64)
        ensures
            s == self@.secs,
            representable(self@.secs, self@.nanos),
    {
        proof {
            use_type_invariant(self);
        }
        self.secs
    }

    /// Nanoseconds within the second.
    pub fn nanos(&self) -> (n: u32)
        ensures
            n == self@.nanos,
    {
        self.nanos
    }

    /// Microseconds since the epoch, as `DateTime::timestamp_micros` counts
    /// them: a million for each second, and the microseconds within the
    /// second.
    pub fn micros(&self) -> (m: i64)
        ensures
            m == self@.micros(),
    {
        proof {
            use_type_invariant(self);
        }
        let within: u32 = self.nanos / 1_000;
        self.secs * 1_000_000 + within as i64
    }

    /// The time as RFC 3339 text with a numeric offset.
    pub fn to_rfc3339(&self) -> (text: String)
        ensures
            text@ == self@.rfc3339(),
    {
        proof {
            use_type_invariant(self);
        }
        chrono_rfc3339(self.secs, self.nanos)
    }

    /// The time as RFC 3339 text that ends in `Z`, the form in which times
    /// are stored.
    pub fn to_stored_text(&self) -> (text: String)
        ensures
            text@ == self@.stored_text(),
    {
        proof {
            use_type_invariant(self);
        }
        chrono_rfc3339_z(self.secs, self.nanos)
    }

    /// Reads a time from RFC 3339 text.
    pub fn parse(text: &str) -> (r: Option<Timestamp>)
        ensures
            match r {
                Some(t) => read_time(text@) == Some(t@),
                None => read_time(text@) is None,
            },
    {
        match chrono_parse(text) {
            Some((secs, nanos)) => Some(Timestamp { secs, nanos }),
            None => None,
        }
    }

    /// Whether the stored text of the time reads back as the same time,
    /// which it does for the years that RFC 3339 can write.
    pub fn reads_back(&self) -> (b: bool)
        ensures
            b == self@.reads_back(),
    {
        let text = self.to_stored_text();
        match Timestamp::parse(text.as_str()) {
            Some(t) => t.secs == self.secs && t.nanos == self.nanos,
            None => false,
        }
    }

    /// Whether `self` is earlier than `other`, or the same time.
    pub fn is_at_or_before(&self, other: &Timestamp) -> (b: bool)
        ensures
            b == self@.at_or_before(other@),
    {
        self.secs < other.secs || (self.secs == other.secs && self.nanos <= other.nanos)
    }
}

} // verus!
