//! A timestamp extracted from embedded media metadata: naive (no time zone),
//! anchored to a fixed offset, or undefined.
//!
//! Parsing is chrono's; its results are carried as plain calendar fields,
//! under names for what each of the three parsers returns.  What is verified
//! is the selection logic: which tag pair, and which variant, decides the
//! result.

use vstd::prelude::*;
use chrono::Datelike;
use chrono::Timelike;

verus! {

/// A parsed timestamp, as plain calendar and clock fields.
#[derive(Clone, Copy, PartialEq, Eq, Structural, Debug)]
pub struct Stamp {
    pub year: i32,
    pub month: u32,
    pub day: u32,
    pub hour: u32,
    pub minute: u32,
    pub second: u32,
}

/// What chrono makes of `time` and `offset`, joined by one space, under the
/// fixed "date, clock time, timezone offset" format: the local calendar
/// fields and the offset in seconds, or nothing when they do not parse.
pub uninterp spec fn utc_pair_parse(time: Seq<char>, offset: Seq<char>) -> Option<(Stamp, i32)>;

/// What chrono makes of `s` under the naive "%Y-%m-%d %H:%M:%S" format: the
/// calendar fields, or nothing when it does not parse.
pub uninterp spec fn naive_parse(s: Seq<char>) -> Option<Stamp>;

/// What chrono makes of `s` as an RFC 3339 timestamp: the local calendar
/// fields and the offset in seconds, or nothing when it does not parse.
pub uninterp spec fn rfc3339_parse(s: Seq<char>) -> Option<(Stamp, i32)>;

/// Relies on chrono's `DateTime::parse_and_remainder` over the joined
/// `"{time} {offset}"` string with the format `"%F %X %#z"`: deterministic in
/// the two strings alone; the local calendar fields and the offset in
/// seconds are handed on.
#[verifier::external_body]
fn parse_time_with_offset(time: &str, offset: &str) -> (r: Option<(Stamp, i32)>)
    ensures
        r == utc_pair_parse(time@, offset@),
{
    match chrono::DateTime::parse_and_remainder(&format!("{time} {offset}"), "%F %X %#z") {
        Ok((d, _)) => Some((
            Stamp {
                year: d.year(),
                month: d.month(),
                day: d.day(),
                hour: d.hour(),
                minute: d.minute(),
                second: d.second(),
            },
            d.offset().local_minus_utc(),
        )),
        Err(_) => None,
    }
}

/// Relies on chrono's `NaiveDateTime::parse_from_str` with the format
/// `"%Y-%m-%d %H:%M:%S"`: deterministic in the string alone; the calendar
/// fields are handed on.
#[verifier::external_body]
fn parse_naive(s: &str) -> (r: Option<Stamp>)
    ensures
        r == naive_parse(s@),
{
    match chrono::NaiveDateTime::parse_from_str(s, "%Y-%m-%d %H:%M:%S") {
        Ok(d) => Some(Stamp {
            year: d.year(),
            month: d.month(),
            day: d.day(),
            hour: d.hour(),
            minute: d.minute(),
            second: d.second(),
        }),
        Err(_) => None,
    }
}

/// Relies on chrono's `DateTime::parse_from_rfc3339`: deterministic in the
/// string alone; the local calendar fields and the offset in seconds are
/// handed on.
#[verifier::external_body]
fn parse_rfc3339(s: &str) -> (r: Option<(Stamp, i32)>)
    ensures
        r == rfc3339_parse(s@),
{
    match chrono::DateTime::parse_from_rfc3339(s) {
        Ok(d) => Some((
            Stamp {
                year: d.year(),
                month: d.month(),
                day: d.day(),
                hour: d.hour(),
                minute: d.minute(),
                second: d.second(),
            },
            d.offset().local_minus_utc(),
        )),
        Err(_) => None,
    }
}

/// Which variant a [`MediaTime`] is.
#[derive(Clone, Copy, PartialEq, Eq, Structural, Debug)]
pub enum MediaKind {
    /// A naive timestamp, no time zone.
    Naive,
    /// A timestamp with a fixed offset.
    Utc,
    /// No usable timestamp.
    Undefined,
}

/// A timestamp out of embedded metadata: naive with no time zone, or a local
/// time anchored to a fixed offset in seconds, or undefined.
#[derive(Clone, Copy, PartialEq, Eq, Structural, Debug)]
pub enum MediaTime {
    /// A timestamp with no time zone.
    Naive(Stamp),
    /// A local timestamp with its offset from UTC in seconds.
    Utc(Stamp, i32),
    /// No usable timestamp was found.
    Undefined,
}

/// The variant of a [`MediaTime`].
pub open spec fn kind_of(m: MediaTime) -> MediaKind {
    match m {
        MediaTime::Naive(_) => MediaKind::Naive,
        MediaTime::Utc(_, _) => MediaKind::Utc,
        MediaTime::Undefined => MediaKind::Undefined,
    }
}

/// What one time/offset tag pair yields: an offset-anchored time when both
/// values are present and parse together, a naive time when only the time
/// value is present and parses, and nothing otherwise — a present offset
/// whose combination fails to parse does not fall back to naive parsing.
pub open spec fn pair_time(p: (Option<String>, Option<String>)) -> MediaTime {
    match p {
        (Option::Some(t), Option::Some(o)) => match utc_pair_parse(t@, o@) {
            Option::Some(v) => MediaTime::Utc(v.0, v.1),
            Option::None => MediaTime::Undefined,
        },
        (Option::Some(t), Option::None) => match naive_parse(t@) {
            Option::Some(st) => MediaTime::Naive(st),
            Option::None => MediaTime::Undefined,
        },
        (Option::None, _) => MediaTime::Undefined,
    }
}

/// The time the whole pair list yields: that of the first pair yielding
/// anything, else undefined.
pub open spec fn chosen_time(pairs: Seq<(Option<String>, Option<String>)>) -> MediaTime
    decreases pairs.len(),
{
    if pairs.len() == 0 {
        MediaTime::Undefined
    } else if pair_time(pairs[0]) is Undefined {
        chosen_time(pairs.skip(1))
    } else {
        pair_time(pairs[0])
    }
}

impl MediaTime {
    /// Walks time/offset tag value pairs in order, trying to build a time
    /// with an offset from each complete pair and falling back to naive
    /// parsing when only the time value is present; the first pair that
    /// parses decides the result, and with none left the time is undefined.
    pub fn from_tag_pairs(pairs: &Vec<(Option<String>, Option<String>)>) -> (r: Self)
        ensures
            r == chosen_time(pairs@),
    {
        let mut i: usize = 0;
        proof {
            assert(pairs@.skip(0) =~= pairs@);
        }
        while i < pairs.len()
            invariant
                i <= pairs@.len(),
                chosen_time(pairs@) == chosen_time(pairs@.skip(i as int)),
            decreases pairs@.len() - i,
        {
            let p = &pairs[i];
            proof {
                assert(pairs@.skip(i as int)[0] == pairs@[i as int]);
                assert(pairs@.skip(i as int).skip(1) =~= pairs@.skip(i as int + 1));
            }
            match (&p.0, &p.1) {
                (Some(t), Some(o)) => {
                    if let Some(d) = parse_time_with_offset(t.as_str(), o.as_str()) {
                        return MediaTime::Utc(d.0, d.1);
                    }
                },
                (Some(t), None) => {
                    if let Some(d) = parse_naive(t.as_str()) {
                        return MediaTime::Naive(d);
                    }
                },
                (None, _) => {},
            }
            i = i + 1;
        }
        proof {
            assert(pairs@.skip(i as int) =~= Seq::<(Option<String>, Option<String>)>::empty());
        }
        MediaTime::Undefined
    }

    /// Parses the stored textual form back: the literal `"Undefined"`, else
    /// an RFC 3339 timestamp, else a naive timestamp; a string that is none
    /// of these is undefined rather than an error.
    pub fn try_from(value: String) -> (r: Self)
        ensures
            r == (if value@ == "Undefined"@ {
                MediaTime::Undefined
            } else {
                match rfc3339_parse(value@) {
                    Option::Some(v) => MediaTime::Utc(v.0, v.1),
                    Option::None => match naive_parse(value@) {
                        Option::Some(st) => MediaTime::Naive(st),
                        Option::None => MediaTime::Undefined,
                    },
                }
            }),
    {
        let undefined_form: String = "Undefined".to_owned();
        if value == undefined_form {
            return MediaTime::Undefined;
        }
        if let Some(d) = parse_rfc3339(value.as_str()) {
            return MediaTime::Utc(d.0, d.1);
        }
        match parse_naive(value.as_str()) {
            Some(d) => MediaTime::Naive(d),
            None => MediaTime::Undefined,
        }
    }

    /// The variant of this value, as runnable code.
    pub fn kind(&self) -> (k: MediaKind)
        ensures
            k == kind_of(*self),
    {
        match self {
            MediaTime::Naive(_) => MediaKind::Naive,
            MediaTime::Utc(_, _) => MediaKind::Utc,
            MediaTime::Undefined => MediaKind::Undefined,
        }
    }
}

impl Default for MediaTime {
    /// The undefined timestamp.
    fn default() -> (r: Self)
        ensures
            kind_of(r) is Undefined,
    {
        MediaTime::Undefined
    }
}

} // verus!
