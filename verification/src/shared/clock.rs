//! Instants, their RFC 3339 text, and the clock.
use vstd::prelude::*;

verus! {

/// An instant: whole seconds since the Unix epoch and nanoseconds within
/// the second.
#[derive(Clone, Copy, Debug, PartialEq, Eq, Structural)]
pub struct Instant {
    pub secs: i64,
    pub nanos: u32,
}

/// `a` comes strictly before `b`.
pub open spec fn instant_before(a: Instant, b: Instant) -> bool {
    a.secs < b.secs || (a.secs == b.secs && a.nanos < b.nanos)
}

/// The instants whose RFC 3339 text has a four-digit year from 1970 on and
/// no leap second.
pub open spec fn in_text_range(t: Instant) -> bool {
    0 <= t.secs <= 253402300799 && t.nanos < 1_000_000_000
}

/// The instants chrono can represent (`chrono::DateTime::from_timestamp`
/// gives `Some`): from January 1 of the year -262143 to December 31 of
/// 262142, with nanoseconds below one second, or below two seconds within
/// the last second of a minute (a leap second).
pub open spec fn chrono_represents(secs: int, nanos: u32) -> bool {
    &&& -8334601315200 <= secs <= 8210266876799
    &&& nanos < 2_000_000_000
    &&& (nanos < 1_000_000_000 || secs % 60 == 59)
}

/// Four-digit years from 1970 on are within what chrono represents.
pub proof fn lemma_text_range_represented(t: Instant)
    requires
        in_text_range(t),
    ensures
        chrono_represents(t.secs as int, t.nanos),
{
}

/// The instant (seconds, nanoseconds) an RFC 3339 text denotes, if it is
/// one: what `chrono::DateTime::parse_from_rfc3339` reads from it.
pub uninterp spec fn rfc3339_instant(text: Seq<char>) -> Option<(i64, u32)>;

/// The RFC 3339 text of an instant in UTC: what
/// `chrono::DateTime::<Utc>::to_rfc3339` writes for it.
pub uninterp spec fn rfc3339_text(secs: i64, nanos: u32) -> Seq<char>;

/// Whether `a` comes strictly before `b`.
pub fn is_before(a: &Instant, b: &Instant) -> (r: bool)
    ensures
        r == instant_before(*a, *b),
{
    a.secs < b.secs || (a.secs == b.secs && a.nanos < b.nanos)
}

/// The instant a whole number of hours after `t` (before it, for a
/// negative number), unless its seconds leave the range of `i64`.
pub fn add_hours(t: &Instant, hours: i64) -> (r: Option<Instant>)
    ensures
        match r {
            Some(u) => u.secs == t.secs + hours * 3600 && u.nanos == t.nanos,
            None => t.secs + hours * 3600 > i64::MAX || t.secs + hours * 3600 < i64::MIN,
        },
{
    let delta: i128 = (hours as i128) * 3600;
    let secs: i128 = (t.secs as i128) + delta;
    if secs > (i64::MAX as i128) || secs < (i64::MIN as i128) {
        None
    } else {
        Some(Instant { secs: secs as i64, nanos: t.nanos })
    }
}

/// Reads an RFC 3339 text (`chrono::DateTime::parse_from_rfc3339`), giving
/// the instant's Unix seconds and sub-second nanoseconds.
#[verifier::external_body]
pub fn parse_rfc3339(text: &str) -> (r: Option<Instant>)
    ensures
        match r {
            Some(t) => rfc3339_instant(text@) == Some((t.secs, t.nanos)),
            None => rfc3339_instant(text@) is None,
        },
{
    match chrono::DateTime::parse_from_rfc3339(text) {
        Ok(dt) => Some(Instant { secs: dt.timestamp(), nanos: dt.timestamp_subsec_nanos() }),
        Err(_) => None,
    }
}

/// Writes an instant as RFC 3339 text in UTC
/// (`chrono::DateTime::<Utc>::to_rfc3339`), if chrono can represent it
/// (`chrono::DateTime::from_timestamp`). Within the four-digit years from
/// 1970 on, reading the text back gives the instant again.
#[verifier::external_body]
pub fn format_rfc3339(t: &Instant) -> (r: Option<String>)
    ensures
        r matches Some(s) ==> s@ == rfc3339_text(t.secs, t.nanos),
        r matches Some(s) ==> s@.len() > 0,
        r is Some <==> chrono_represents(t.secs as int, t.nanos),
        r matches Some(s) ==> (in_text_range(*t) ==> rfc3339_instant(s@) == Some(
            (t.secs, t.nanos),
        )),
{
    match chrono::DateTime::from_timestamp(t.secs, t.nanos) {
        Some(dt) => Some(dt.to_rfc3339()),
        None => None,
    }
}

/// The current instant (`chrono::Utc::now`), as its Unix seconds and
/// sub-second nanoseconds. Which instant it is depends on the clock; of
/// every outcome it holds that chrono represents it, since it was read from
/// a chrono date and time.
#[verifier::external_body]
pub fn now_instant() -> (r: Instant)
    ensures
        chrono_represents(r.secs as int, r.nanos),
{
    let now = chrono::Utc::now();
    Instant { secs: now.timestamp(), nanos: now.timestamp_subsec_nanos() }
}

} // verus!
