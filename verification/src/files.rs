//! The links files of the second scraper: named `links_<timestamp>.json`,
//! of which the latest is processed.
use vstd::prelude::*;
use chrono::{Datelike, Timelike};
use crate::error::ScrapeError;
use crate::text::{chars_of, ends_with_chars, ends_with_seq, starts_with_chars, starts_with_seq, string_of};

verus! {

/// The path of the links file for a timestamp.
pub open spec fn links_file_path_spec(stamp: Seq<char>) -> Seq<char> {
    "output/"@ + links_file_name_spec(stamp)
}

/// The path of the links file for a timestamp (`%Y%m%d_%H%M%S`).
pub fn links_file_path(stamp: &str) -> (r: String)
    ensures
        r@ == links_file_path_spec(stamp@),
{
    let mut out = chars_of("output/");
    out.append(&mut chars_of("links_"));
    out.append(&mut chars_of(stamp));
    out.append(&mut chars_of(".json"));
    assert(out@ =~= links_file_path_spec(stamp@));
    string_of(&out)
}

/// The name of the links file for a timestamp.
pub open spec fn links_file_name_spec(stamp: Seq<char>) -> Seq<char> {
    "links_"@ + stamp + ".json"@
}

/// The timestamp of the links file written at a date and time (the day
/// number from the common era, the second of the day and the nanosecond), or
/// `None` where these do not make a date and time. Within the years 0 to
/// 9999 and off a leap second there is one, and the file named by it is a
/// links file whose timestamp reads back as the same day and second.
pub fn links_file_stamp_at(days: i32, secs: u32, nanos: u32) -> (r: Option<String>)
    ensures
        r.deep_view() == formatted_timestamp(days, secs, nanos, STAMP_FORMAT@),
        stamp_in_range(days, secs, nanos) ==> (r matches Some(t) && is_links_file(
            links_file_name_spec(t@),
        ) && stamp_readable(links_file_name_spec(t@)) && stamp_key(links_file_name_spec(t@))
            == (days, secs, 0u32)),
{
    let r = format_timestamp(days, secs, nanos, STAMP_FORMAT);
    proof {
        if stamp_in_range(days, secs, nanos) {
            let t = r->0@;
            let name = links_file_name_spec(t);
            reveal_strlit("links_");
            reveal_strlit(".json");
            assert(name.len() == 26);
            assert(name.subrange(0, 6) =~= "links_"@);
            assert(name.subrange(21, 26) =~= ".json"@);
            assert(stamp_of(name) =~= t);
            assert forall|i: int| 0 <= i < 21 implies (#[trigger] name[i] as u32) < 128 by {
                if i >= 6 {
                    assert(name[i] == t[i - 6]);
                }
            }
        }
    }
    r
}

/// Whether a file name has the extension `json` as `Path::extension` sees
/// it: the text after the last `.`, where that `.` is not the first
/// character.
pub open spec fn has_json_extension(name: Seq<char>) -> bool {
    ends_with_seq(name, ".json"@) && name.len() > 5
}

/// Whether a file name is that of a links file: `links_` at the start and
/// the extension `json`.
pub open spec fn is_links_file(name: Seq<char>) -> bool {
    starts_with_seq(name, "links_"@) && has_json_extension(name)
}

/// Whether a file name is that of a links file.
pub fn is_links_file_name(name: &str) -> (b: bool)
    ensures
        b == is_links_file(name@),
{
    let cs = chars_of(name);
    starts_with_chars(&cs, &chars_of("links_")) && ends_with_chars(&cs, &chars_of(".json"))
        && cs.len() > 5
}

/// The format of the timestamp in a links file's name.
pub const STAMP_FORMAT: &'static str = "%Y%m%d_%H%M%S";

/// Name for what `chrono::NaiveDateTime::parse_from_str(s, fmt)` gives:
/// `None` where it fails, else the date and time as the day number from the
/// common era, the second of the day and the nanosecond (which ordered as a
/// triple is chrono's chronological order).
pub uninterp spec fn timestamp_key(s: Seq<char>, fmt: Seq<char>) -> Option<(i32, u32, u32)>;

/// Name for the text chrono's `NaiveDateTime::format(fmt)` writes for the
/// date with day number `days` from the common era and the time `secs`
/// seconds and `nanos` nanoseconds after midnight, or `None` where these do
/// not make a date and time.
pub uninterp spec fn formatted_timestamp(days: i32, secs: u32, nanos: u32, fmt: Seq<char>) -> Option<Seq<char>>;

/// Whether a date and time lies in the years 0 to 9999 and falls on no leap
/// second: the day number is from -365 (0000-01-01) to 3652059
/// (9999-12-31), the second of the day below 86400 and the nanosecond below
/// 10^9.
pub open spec fn stamp_in_range(days: i32, secs: u32, nanos: u32) -> bool {
    -365 <= days <= 3652059 && secs < 86400 && nanos < 1_000_000_000
}

/// Whether every character of `t` is ASCII.
pub open spec fn is_ascii_text(t: Seq<char>) -> bool {
    forall|i: int| 0 <= i < t.len() ==> (#[trigger] t[i] as u32) < 128
}

/// Whether `stamp` is a timestamp text of 15 ASCII characters that parses,
/// with the links files' format, as day `days` and second `secs`, nanosecond 0.
pub open spec fn stamp_reads_back(stamp: Option<Seq<char>>, days: i32, secs: u32) -> bool {
    &&& stamp is Some
    &&& stamp->0.len() == 15
    &&& is_ascii_text(stamp->0)
    &&& timestamp_key(stamp->0, STAMP_FORMAT@) == Some((days, secs, 0u32))
}

/// Calls `chrono::NaiveDateTime::parse_from_str(s, fmt)` and, on success,
/// `Datelike::num_days_from_ce`, `Timelike::num_seconds_from_midnight` and
/// `Timelike::nanosecond`. The contract claims the named result; date parsing
/// is left unstated. None of these calls panics.
#[verifier::external_body]
fn parse_timestamp(s: &str, fmt: &str) -> (r: Option<(i32, u32, u32)>)
    ensures
        r == timestamp_key(s@, fmt@),
{
    chrono::NaiveDateTime::parse_from_str(s, fmt).ok().map(
        |t| (t.date().num_days_from_ce(), t.time().num_seconds_from_midnight(), t.time().nanosecond()),
    )
}

/// Calls `chrono::NaiveDate::from_num_days_from_ce_opt(days)`,
/// `NaiveTime::from_num_seconds_from_midnight_opt(secs, nanos)`,
/// `NaiveDateTime::new` and `NaiveDateTime::format(fmt)` with `to_string`.
/// The contract claims the named result and, for the one format admitted
/// (which chrono accepts, so `to_string` does not panic), what chrono's
/// documentation of `%Y%m%d_%H%M%S` gives for a date and time of the years 0
/// to 9999 off a leap second: the text is 15 ASCII characters (the year
/// zero-padded to 4 digits, the other fields to 2), and parsing it with the
/// same format gives the same day and second, with nanosecond 0.
#[verifier::external_body]
fn format_timestamp(days: i32, secs: u32, nanos: u32, fmt: &str) -> (r: Option<String>)
    requires
        fmt@ == STAMP_FORMAT@,
    ensures
        r.deep_view() == formatted_timestamp(days, secs, nanos, fmt@),
        stamp_in_range(days, secs, nanos) ==> stamp_reads_back(r.deep_view(), days, secs),
{
    chrono::NaiveDate::from_num_days_from_ce_opt(days).and_then(
        |d| chrono::NaiveTime::from_num_seconds_from_midnight_opt(secs, nanos).map(
            |t| chrono::NaiveDateTime::new(d, t).format(fmt).to_string(),
        ),
    )
}

/// The timestamp part of a links file name: the 15 characters after `links_`.
pub open spec fn stamp_of(name: Seq<char>) -> Seq<char> {
    name.subrange(6, 21)
}

/// Whether the timestamp of a links file name can be read: its first 21
/// characters are ASCII (so that they are its first 21 bytes) and the
/// timestamp parses.
pub open spec fn stamp_readable(name: Seq<char>) -> bool {
    &&& name.len() >= 21
    &&& forall|i: int| 0 <= i < 21 ==> (#[trigger] name[i] as u32) < 128
    &&& timestamp_key(stamp_of(name), STAMP_FORMAT@) is Some
}

/// The date and time of a links file name with a readable timestamp.
pub open spec fn stamp_key(name: Seq<char>) -> (i32, u32, u32) {
    timestamp_key(stamp_of(name), STAMP_FORMAT@)->0
}

/// Chronological order of keys.
pub open spec fn key_lt(a: (i32, u32, u32), b: (i32, u32, u32)) -> bool {
    a.0 < b.0 || (a.0 == b.0 && (a.1 < b.1 || (a.1 == b.1 && a.2 < b.2)))
}

fn key_lt_exec(a: (i32, u32, u32), b: (i32, u32, u32)) -> (r: bool)
    ensures
        r == key_lt(a, b),
{
    a.0 < b.0 || (a.0 == b.0 && (a.1 < b.1 || (a.1 == b.1 && a.2 < b.2)))
}

/// Whether `i` holds the latest key of `keys` (`None` marks no candidate):
/// a key no other key follows, and that every key after it precedes (so that
/// of equal keys the last is taken, as `Iterator::max_by_key` does).
pub open spec fn is_last_max(keys: Seq<Option<(i32, u32, u32)>>, i: int) -> bool {
    &&& 0 <= i < keys.len()
    &&& keys[i] is Some
    &&& forall|j: int|
        0 <= j < keys.len() && (#[trigger] keys[j]) is Some ==> {
            &&& !key_lt(keys[i]->0, keys[j]->0)
            &&& (j > i ==> key_lt(keys[j]->0, keys[i]->0))
        }
}

/// The key of each name: its timestamp where it names a links file, `None`
/// where it does not.
pub open spec fn candidate_keys(names: Seq<Seq<char>>) -> Seq<Option<(i32, u32, u32)>> {
    names.map_values(
        |n: Seq<char>|
            if is_links_file(n) {
                Some(stamp_key(n))
            } else {
                None
            },
    )
}

/// Whether `i` is the latest links file among `names`.
pub open spec fn is_latest_links_file(names: Seq<Seq<char>>, i: int) -> bool {
    is_last_max(candidate_keys(names), i)
}

/// The index of the latest key (the last of equally late ones), or `None`
/// where no key is present.
pub fn latest_by_key(keys: &Vec<Option<(i32, u32, u32)>>) -> (r: Option<usize>)
    ensures
        match r {
            Some(i) => is_last_max(keys@, i as int),
            None => forall|j: int| 0 <= j < keys.len() ==> (#[trigger] keys@[j]) is None,
        },
{
    let mut best: Option<usize> = None;
    let mut best_key: (i32, u32, u32) = (0, 0, 0);
    let mut i: usize = 0;
    while i < keys.len()
        invariant
            i <= keys.len(),
            match best {
                Some(b) => {
                    &&& b < i
                    &&& keys@[b as int] == Some(best_key)
                    &&& forall|j: int|
                        0 <= j < i && (#[trigger] keys@[j]) is Some ==> {
                            &&& !key_lt(best_key, keys@[j]->0)
                            &&& (j > b ==> key_lt(keys@[j]->0, best_key))
                        }
                },
                None => forall|j: int| 0 <= j < i ==> (#[trigger] keys@[j]) is None,
            },
        decreases keys.len() - i,
    {
        if let Some(k) = keys[i] {
            match best {
                Some(_) => {
                    if !key_lt_exec(k, best_key) {
                        best = Some(i);
                        best_key = k;
                    }
                },
                None => {
                    best = Some(i);
                    best_key = k;
                },
            }
        }
        i = i + 1;
    }
    best
}

/// Whether every links file among `names` has a readable timestamp.
pub open spec fn all_stamps_readable(names: Seq<Seq<char>>) -> bool {
    forall|j: int| 0 <= j < names.len() && is_links_file(#[trigger] names[j]) ==> stamp_readable(names[j])
}

/// The date and time of a links file name, or `None` where it cannot be read.
pub fn links_file_stamp(name: &str) -> (r: Option<(i32, u32, u32)>)
    ensures
        r is Some <==> stamp_readable(name@),
        r matches Some(k) ==> k == stamp_key(name@),
{
    let cs = chars_of(name);
    if cs.len() < 21 {
        return None;
    }
    let mut i: usize = 0;
    while i < 21
        invariant
            cs@ == name@,
            21 <= cs.len(),
            i <= 21,
            forall|j: int| 0 <= j < i ==> (#[trigger] cs@[j] as u32) < 128,
        decreases 21 - i,
    {
        if cs[i] as u32 >= 128 {
            return None;
        }
        i = i + 1;
    }
    let mut stamp: Vec<char> = Vec::new();
    let mut k: usize = 6;
    while k < 21
        invariant
            cs@ == name@,
            21 <= cs.len(),
            6 <= k <= 21,
            stamp@ == cs@.subrange(6, k as int),
        decreases 21 - k,
    {
        stamp.push(cs[k]);
        k = k + 1;
        assert(stamp@ =~= cs@.subrange(6, k as int));
    }
    let s = string_of(&stamp);
    parse_timestamp(s.as_str(), STAMP_FORMAT)
}

/// The index of the latest links file among the names of the files in the
/// output directory, or `None` where there is none.
pub fn latest_links_file_checked(names: &Vec<String>) -> (r: Option<usize>)
    requires
        all_stamps_readable(names.deep_view()),
    ensures
        match r {
            Some(i) => is_latest_links_file(names.deep_view(), i as int),
            None => forall|j: int| 0 <= j < names.len() ==> !is_links_file(#[trigger] names.deep_view()[j]),
        },
{
    let ghost dv = names.deep_view();
    let mut keys: Vec<Option<(i32, u32, u32)>> = Vec::new();
    let mut i: usize = 0;
    while i < names.len()
        invariant
            i <= names.len(),
            dv == names.deep_view(),
            dv.len() == names.len(),
            all_stamps_readable(dv),
            keys@ == candidate_keys(dv).take(i as int),
        decreases names.len() - i,
    {
        assert(dv[i as int] == names[i as int]@);
        if is_links_file_name(names[i].as_str()) {
            assert(stamp_readable(dv[i as int]));
            keys.push(links_file_stamp(names[i].as_str()));
        } else {
            keys.push(None);
        }
        assert(keys@ =~= candidate_keys(dv).take(i + 1));
        i = i + 1;
    }
    assert(keys@ =~= candidate_keys(dv));
    let r = latest_by_key(&keys);
    assert forall|j: int| 0 <= j < names.len() && r is None implies !is_links_file(
        #[trigger] dv[j],
    ) by {
        assert(keys@[j] is None);
    }
    r
}

/// The index of the latest links file among the names of the files in the
/// output directory, or `None` where there is none; an error where some
/// links file's timestamp cannot be read.
pub fn latest_links_file(names: &Vec<String>) -> (r: Result<Option<usize>, ScrapeError>)
    ensures
        r is Err <==> !all_stamps_readable(names.deep_view()),
        r matches Err(e) ==> e == ScrapeError::InvalidTimestamp,
        r matches Ok(Some(i)) ==> is_latest_links_file(names.deep_view(), i as int),
        r matches Ok(None) ==> forall|j: int|
            0 <= j < names.len() ==> !is_links_file(#[trigger] names.deep_view()[j]),
{
    let ghost dv = names.deep_view();
    let mut i: usize = 0;
    while i < names.len()
        invariant
            i <= names.len(),
            dv == names.deep_view(),
            dv.len() == names.len(),
            forall|j: int| 0 <= j < i && is_links_file(#[trigger] dv[j]) ==> stamp_readable(dv[j]),
        decreases names.len() - i,
    {
        assert(dv[i as int] == names[i as int]@);
        if is_links_file_name(names[i].as_str()) {
            if links_file_stamp(names[i].as_str()).is_none() {
                return Err(ScrapeError::InvalidTimestamp);
            }
        }
        i = i + 1;
    }
    Ok(latest_links_file_checked(names))
}

/// The date and time written in a links file name, as chrono reads the 15
/// characters after `links_` with `%Y%m%d_%H%M%S`: day, second of the day,
/// nanosecond.
pub open spec fn name_date_time(name: Seq<char>) -> (i32, u32, u32) {
    timestamp_key(name.subrange(6, 21), "%Y%m%d_%H%M%S"@)->0
}

/// Law: the latest links file is a links file, no links file is dated later
/// (by day, then second, then nanosecond), and every links file listed after
/// it is dated strictly earlier; so of two links files with different times,
/// even on the same day, the later is never passed over.
pub proof fn law_latest_is_newest(names: Seq<Seq<char>>, i: int, j: int)
    requires
        is_latest_links_file(names, i),
        0 <= j < names.len(),
        is_links_file(names[j]),
    ensures
        0 <= i < names.len(),
        is_links_file(names[i]),
        ({
            let a = name_date_time(names[i]);
            let b = name_date_time(names[j]);
            &&& !(b.0 > a.0 || (b.0 == a.0 && (b.1 > a.1 || (b.1 == a.1 && b.2 > a.2))))
            &&& j > i ==> (a.0 > b.0 || (a.0 == b.0 && (a.1 > b.1 || (a.1 == b.1 && a.2 > b.2))))
        }),
{
    let keys = candidate_keys(names);
    assert(keys[j] == Some(stamp_key(names[j])));
    assert(keys[i] == Some(stamp_key(names[i])));
    assert(STAMP_FORMAT@ == "%Y%m%d_%H%M%S"@);
    assert(stamp_key(names[i]) == name_date_time(names[i]));
    assert(stamp_key(names[j]) == name_date_time(names[j]));
}

} // verus!
