use vstd::prelude::*;
use crate::text::{
    char_is_alphanumeric, chars_of, is_alphanumeric, is_ascii_alphanumeric, lemma_trim_idempotent, push_char,
    push_zero_padded, trim, trim_seq, zero_padded,
};
use crate::universe::galaxy::GalaxyMode;

verus! {

/// Gregorian leap year rule.
pub open spec fn is_leap_year(y: int) -> bool {
    (y % 4 == 0 && y % 100 != 0) || y % 400 == 0
}

/// Days from March 1 of year 0 of a 400-year era to March 1 of year `yoe`.
pub open spec fn era_year_start(yoe: int) -> int {
    365 * yoe + yoe / 4 - yoe / 100
}

/// Splitting a day of a 400-year era (counted from March 1) into the year of
/// the era and the day within that (March-based) year.
pub proof fn lemma_year_of_era(doe: int)
    requires
        0 <= doe < 146097,
    ensures
        ({
            let yoe = (doe - doe / 1460 + doe / 36524 - doe / 146096) / 365;
            &&& 0 <= yoe < 400
            &&& era_year_start(yoe) <= doe
            &&& doe < era_year_start(yoe) + 365 + (if is_leap_year(yoe + 1) { 1int } else { 0 })
        }),
{
}

/// Number of days in month `m` (1 = January) of year `y`.
pub open spec fn days_in_month(y: int, m: int) -> int {
    if m == 2 {
        if is_leap_year(y) {
            29
        } else {
            28
        }
    } else if m == 4 || m == 6 || m == 9 || m == 11 {
        30
    } else {
        31
    }
}

/// Number of days in the months of year `y` before month `m`.
pub open spec fn days_before_month(y: int, m: int) -> int {
    let common: int = if m <= 1 {
        0
    } else if m == 2 {
        31
    } else if m == 3 {
        59
    } else if m == 4 {
        90
    } else if m == 5 {
        120
    } else if m == 6 {
        151
    } else if m == 7 {
        181
    } else if m == 8 {
        212
    } else if m == 9 {
        243
    } else if m == 10 {
        273
    } else if m == 11 {
        304
    } else {
        334
    };
    common + if m > 2 && is_leap_year(y) {
        1int
    } else {
        0
    }
}

/// Number of days from January 1 of year 0 to January 1 of year `y >= 0`:
/// 365 per year plus one for each leap year in `0..y`.
pub open spec fn days_before_year(y: int) -> int {
    365 * y + (y + 3) / 4 - (y + 99) / 100 + (y + 399) / 400
}

/// Each year adds 365 days, and one more if it is a leap year.
pub proof fn lemma_days_before_next_year(y: int)
    requires
        0 <= y,
    ensures
        days_before_year(y + 1) == days_before_year(y) + 365 + if is_leap_year(y) {
            1int
        } else {
            0
        },
{
    assert((y + 4) / 4 == (y + 3) / 4 + if y % 4 == 0 {
        1int
    } else {
        0
    }) by (nonlinear_arith)
        requires
            0 <= y,
    ;
    assert((y + 100) / 100 == (y + 99) / 100 + if y % 100 == 0 {
        1int
    } else {
        0
    }) by (nonlinear_arith)
        requires
            0 <= y,
    ;
    assert((y + 400) / 400 == (y + 399) / 400 + if y % 400 == 0 {
        1int
    } else {
        0
    }) by (nonlinear_arith)
        requires
            0 <= y,
    ;
    assert(y % 100 == 0 ==> y % 4 == 0) by (nonlinear_arith);
    assert(y % 400 == 0 ==> y % 100 == 0) by (nonlinear_arith);
}

/// The date's distance in days from 1970-01-01 (the Unix epoch).
pub open spec fn days_since_epoch(y: int, m: int, d: int) -> int {
    days_before_year(y) + days_before_month(y, m) + d - 1 - 719528
}

/// A real calendar date: month 1..=12, day within the month.
pub open spec fn is_valid_date(y: int, m: int, d: int) -> bool {
    1 <= m <= 12 && 1 <= d <= days_in_month(y, m)
}

/// The date `d` days after 1970-01-01: the one valid date (from year 0 on)
/// at that distance from the epoch.
pub open spec fn civil_date(days: int) -> (int, int, int) {
    choose|t: (int, int, int)|
        t.0 >= 0 && is_valid_date(t.0, t.1, t.2) && days_since_epoch(t.0, t.1, t.2) == days
}

/// A valid date lies inside its year.
proof fn lemma_date_within_year(y: int, m: int, d: int)
    requires
        0 <= y,
        is_valid_date(y, m, d),
    ensures
        days_before_year(y) <= days_since_epoch(y, m, d) + 719528 < days_before_year(y + 1),
{
    lemma_days_before_next_year(y);
}

/// Later years start later.
proof fn lemma_days_before_year_monotonic(y1: int, y2: int)
    requires
        0 <= y1 <= y2,
    ensures
        days_before_year(y1) <= days_before_year(y2),
    decreases y2 - y1,
{
    if y1 < y2 {
        lemma_days_before_next_year(y1);
        lemma_days_before_year_monotonic(y1 + 1, y2);
    }
}

/// Each day count since the epoch names at most one date: two valid dates
/// at the same distance from the epoch are the same date.
pub proof fn lemma_date_unique(y1: int, m1: int, d1: int, y2: int, m2: int, d2: int)
    requires
        0 <= y1,
        0 <= y2,
        is_valid_date(y1, m1, d1),
        is_valid_date(y2, m2, d2),
        days_since_epoch(y1, m1, d1) == days_since_epoch(y2, m2, d2),
    ensures
        y1 == y2 && m1 == m2 && d1 == d2,
{
    lemma_date_within_year(y1, m1, d1);
    lemma_date_within_year(y2, m2, d2);
    if y1 < y2 {
        lemma_days_before_year_monotonic(y1 + 1, y2);
    } else if y2 < y1 {
        lemma_days_before_year_monotonic(y2 + 1, y1);
    }
    assert(y1 == y2);
}

/// Locating a day of a March-based year: the month index from March and the
/// day of that month.
proof fn lemma_month_of_year(doy: int, leap_next: bool)
    requires
        0 <= doy < 365 + if leap_next {
            1int
        } else {
            0
        },
    ensures
        ({
            let mp = (5 * doy + 2) / 153;
            let dom = doy - (153 * mp + 2) / 5 + 1;
            &&& 0 <= mp < 12
            &&& 1 <= dom
            &&& mp < 10 ==> dom <= days_in_month(2001, mp + 3)
            &&& mp == 10 ==> dom <= 31
            &&& mp == 11 ==> dom <= 28 + if leap_next {
                1int
            } else {
                0
            }
        }),
{
}

/// March 1 of year `400 * era + yoe`, counted from March 1 of year 0, in
/// two ways: by whole eras and years of the era, and from January 1.
proof fn lemma_era_start(era: int, yoe: int)
    requires
        0 <= era,
        0 <= yoe < 400,
    ensures
        ({
            let y = 400 * era + yoe;
            &&& days_before_year(y) + (if is_leap_year(y) {
                1int
            } else {
                0
            }) - 1 == 146097 * era + era_year_start(yoe)
            &&& is_leap_year(y + 1) == is_leap_year(yoe + 1)
        }),
{
    let y = 400 * era + yoe;
    assert((y + 3) / 4 == 100 * era + (yoe + 3) / 4) by (nonlinear_arith)
        requires
            y == 400 * era + yoe,
            0 <= era,
            0 <= yoe,
    ;
    assert((y + 99) / 100 == 4 * era + (yoe + 99) / 100) by (nonlinear_arith)
        requires
            y == 400 * era + yoe,
            0 <= era,
            0 <= yoe,
    ;
    assert((y + 399) / 400 == era + (yoe + 399) / 400) by (nonlinear_arith)
        requires
            y == 400 * era + yoe,
            0 <= era,
            0 <= yoe,
    ;
    assert(y % 4 == yoe % 4 && (y + 1) % 4 == (yoe + 1) % 4) by (nonlinear_arith)
        requires
            y == 400 * era + yoe,
            0 <= era,
            0 <= yoe,
    ;
    assert(y % 100 == yoe % 100 && (y + 1) % 100 == (yoe + 1) % 100) by (nonlinear_arith)
        requires
            y == 400 * era + yoe,
            0 <= era,
            0 <= yoe,
    ;
    assert(y % 400 == yoe % 400 && (y + 1) % 400 == (yoe + 1) % 400) by (nonlinear_arith)
        requires
            y == 400 * era + yoe,
            0 <= era,
            0 <= yoe,
    ;
    assert(days_before_year(yoe) + (if is_leap_year(yoe) {
        1int
    } else {
        0
    }) - 1 == era_year_start(yoe));
}

/// The date reached `doy` days after March 1 of year `y0`, as computed from
/// the month index `mp` counted from March, lies `doy` days after it.
proof fn lemma_march_year_date(y0: int, doy: int)
    requires
        0 <= y0,
        0 <= doy < 365 + if is_leap_year(y0 + 1) {
            1int
        } else {
            0
        },
    ensures
        ({
            let mp = (5 * doy + 2) / 153;
            let dom = doy - (153 * mp + 2) / 5 + 1;
            let mo = if mp < 10 {
                mp + 3
            } else {
                mp - 9
            };
            let y = if mo <= 2 {
                y0 + 1
            } else {
                y0
            };
            &&& is_valid_date(y, mo, dom)
            &&& days_since_epoch(y, mo, dom) == days_before_year(y0) + (if is_leap_year(y0) {
                1int
            } else {
                0
            }) - 1 + doy - 719468
        }),
{
    lemma_month_of_year(doy, is_leap_year(y0 + 1));
    lemma_days_before_next_year(y0);
}

/// Converts a count of days since 1970-01-01 into a (year, month, day)
/// Gregorian date in UTC.
pub fn days_to_ymd(days: u64) -> (r: (u64, u64, u64))
    requires
        days <= u64::MAX - 719468,
    ensures
        is_valid_date(r.0 as int, r.1 as int, r.2 as int),
        days_since_epoch(r.0 as int, r.1 as int, r.2 as int) == days,
        (r.0 as int, r.1 as int, r.2 as int) == civil_date(days as int),
{
    let mut d = days + 719468;  // shift to an era starting 0000-03-01
    let era = d / 146097;
    d %= 146097;
    proof {
        lemma_year_of_era(d as int);
    }
    let yoe = (d - d / 1460 + d / 36524 - d / 146096) / 365;
    let y = yoe + era * 400;
    let doy = d - (365 * yoe + yoe / 4 - yoe / 100);
    proof {
        lemma_era_start(era as int, yoe as int);
        lemma_march_year_date(y as int, doy as int);
    }
    let mp = (5 * doy + 2) / 153;
    let dom = doy - (153 * mp + 2) / 5 + 1;
    let mo = if mp < 10 {
        mp + 3
    } else {
        mp - 9
    };
    let y = if mo <= 2 {
        y + 1
    } else {
        y
    };
    proof {
        let t = (y as int, mo as int, dom as int);
        assert(t.0 >= 0 && is_valid_date(t.0, t.1, t.2) && days_since_epoch(t.0, t.1, t.2)
            == days);
        let c = civil_date(days as int);
        lemma_date_unique(t.0, t.1, t.2, c.0, c.1, c.2);
    }
    (y, mo, dom)
}

/// The text of a save timestamp: `YYYY-MM-DD HH:MM` (UTC) for `secs`
/// seconds after the Unix epoch.
pub open spec fn timestamp_text(secs: nat) -> Seq<char> {
    let date = civil_date((secs / 86400) as int);
    zero_padded(date.0 as nat, 4) + "-"@ + zero_padded(date.1 as nat, 2) + "-"@ + zero_padded(
        date.2 as nat,
        2,
    ) + " "@ + zero_padded((secs / 3600) % 24, 2) + ":"@ + zero_padded((secs / 60) % 60, 2)
}

/// Human-readable timestamp of a save (UTC), e.g. "2024-03-21 14:05".
pub fn timestamp_display(saved_at: u64) -> (r: String)
    ensures
        r@ == timestamp_text(saved_at as nat),
{
    let secs = saved_at;
    let m = (secs / 60) % 60;
    let h = (secs / 3600) % 24;
    let days = secs / 86400;
    let (y, mo, d) = days_to_ymd(days);
    let mut r = String::new();
    push_zero_padded(&mut r, y, 4);
    r.append("-");
    push_zero_padded(&mut r, mo, 2);
    r.append("-");
    push_zero_padded(&mut r, d, 2);
    r.append(" ");
    push_zero_padded(&mut r, h, 2);
    r.append(":");
    push_zero_padded(&mut r, m, 2);
    r
}

/// The character a slot name keeps in its file name.
pub open spec fn slot_char(c: char) -> char {
    if char_is_alphanumeric(c) || c == '-' || c == '_' {
        c
    } else {
        '_'
    }
}

/// What `slot_char` gives for an ASCII character: ASCII letters, digits,
/// '-' and '_' are kept, every other ASCII character becomes '_'.
pub open spec fn ascii_slot_char(c: char) -> char {
    if is_ascii_alphanumeric(c) || c == '-' || c == '_' {
        c
    } else {
        '_'
    }
}

/// A slot name made safe for a file name: every character other than a
/// letter, digit, '-' or '_' becomes '_'.
pub fn sanitize_slot(slot: &str) -> (r: String)
    ensures
        r@ == slot@.map_values(|c: char| slot_char(c)),
        forall|i: int|
            0 <= i < slot@.len() && (slot@[i] as u32) < 128 ==> r@[i] == ascii_slot_char(
                #[trigger] slot@[i],
            ),
{
    let v = chars_of(slot);
    let mut r = String::new();
    let mut i: usize = 0;
    while i < v.len()
        invariant
            v@ == slot@,
            i <= v@.len(),
            r@ == v@.take(i as int).map_values(|c: char| slot_char(c)),
            forall|j: int|
                0 <= j < i && (v@[j] as u32) < 128 ==> slot_char(#[trigger] v@[j])
                    == ascii_slot_char(v@[j]),
        decreases v@.len() - i,
    {
        let c = v[i];
        let keep = if is_alphanumeric(c) || c == '-' || c == '_' {
            c
        } else {
            '_'
        };
        push_char(&mut r, keep);
        i = i + 1;
        assert(r@ =~= v@.take(i as int).map_values(|c: char| slot_char(c)));
    }
    assert(v@.take(v@.len() as int) =~= v@);
    r
}

/// The file name under which a slot is saved.
pub fn save_file_name(slot: &str) -> (r: String)
    ensures
        r@ == slot@.map_values(|c: char| slot_char(c)) + ".json"@,
{
    let mut r = sanitize_slot(slot);
    r.append(".json");
    r
}

/// The API key held in a key file: its trimmed contents, or `None` when
/// nothing but white space is there.
pub fn api_key_from_file(contents: &str) -> (r: Option<String>)
    ensures
        match r {
            Some(k) => k@ == trim_seq(contents@) && k@.len() > 0,
            None => trim_seq(contents@).len() == 0,
        },
{
    let k = trim(contents);
    if k.as_str().unicode_len() == 0 {
        None
    } else {
        Some(k)
    }
}

/// A stored key reads back as it was stored: the key file holds the trimmed
/// key, and reading it trims again, which changes nothing. A key that is
/// only white space is not stored as a key at all.
pub proof fn lemma_api_key_round_trip(key: Seq<char>)
    ensures
        trim_seq(trim_seq(key)) == trim_seq(key),
{
    lemma_trim_idempotent(key);
}

/// Sanitizing a slot name twice gives the same file name as once, so a
/// sanitized name names the same save.
pub proof fn lemma_sanitize_idempotent(slot: Seq<char>)
    ensures
        slot.map_values(|c: char| slot_char(c)).map_values(|c: char| slot_char(c))
            == slot.map_values(|c: char| slot_char(c)),
{
    assert(slot.map_values(|c: char| slot_char(c)).map_values(|c: char| slot_char(c))
        =~= slot.map_values(|c: char| slot_char(c)));
}

/// Whether save `a` is listed before save `b`: newer first, and saves with
/// the same timestamp in the order they were read.
pub open spec fn listed_before(stamps: Seq<u64>, a: int, b: int) -> bool {
    stamps[a] > stamps[b] || (stamps[a] == stamps[b] && a < b)
}

/// `order` lists each of the first `n` saves once, newest first, ties in
/// their original order.
pub open spec fn is_listing_order(stamps: Seq<u64>, order: Seq<usize>, n: int) -> bool {
    &&& order.len() == n
    &&& forall|x: int| 0 <= x < n ==> #[trigger] order[x] < n
    &&& order.no_duplicates()
    &&& forall|x: int, y: int|
        0 <= x < y < n ==> listed_before(stamps, #[trigger] order[x] as int, #[trigger] order[y] as int)
}

/// The order in which saves are listed: by `saved_at`, newest first; saves
/// with equal timestamps keep the order in which they were read.
pub fn newest_first(stamps: &Vec<u64>) -> (order: Vec<usize>)
    ensures
        is_listing_order(stamps@, order@, stamps@.len() as int),
{
    let mut order: Vec<usize> = Vec::new();
    let mut i: usize = 0;
    while i < stamps.len()
        invariant
            i <= stamps@.len(),
            is_listing_order(stamps@, order@, i as int),
        decreases stamps@.len() - i,
    {
        // Everything already placed was read earlier, so save `i` goes after
        // all of them that are at least as new.
        let mut p: usize = 0;
        while p < order.len() && stamps[order[p]] >= stamps[i]
            invariant
                i < stamps@.len(),
                p <= order@.len(),
                is_listing_order(stamps@, order@, i as int),
                forall|x: int| 0 <= x < p ==> listed_before(stamps@, #[trigger] order@[x] as int, i as int),
            decreases order@.len() - p,
        {
            p = p + 1;
        }
        let ghost old_order = order@;
        proof {
            assert forall|x: int| p <= x < i implies
                listed_before(stamps@, i as int, #[trigger] old_order[x] as int) by {
                if x > p {
                    assert(listed_before(stamps@, old_order[p as int] as int, old_order[x] as int));
                }
            }
        }
        order.insert(p, i);
        proof {
            assert forall|x: int| 0 <= x < i + 1 implies #[trigger] order@[x] < i + 1 by {
                if x < p {
                    assert(order@[x] == old_order[x]);
                } else if x > p {
                    assert(order@[x] == old_order[x - 1]);
                }
            }
            assert forall|x: int, y: int| 0 <= x < y < i + 1 implies
                listed_before(stamps@, #[trigger] order@[x] as int, #[trigger] order@[y] as int) by {
                let ox = if x < p { x } else if x == p { -1 } else { x - 1 };
                let oy = if y < p { y } else if y == p { -1 } else { y - 1 };
                if x != p && y != p {
                    assert(order@[x] == old_order[ox]);
                    assert(order@[y] == old_order[oy]);
                } else if x == p {
                    assert(order@[y] == old_order[oy]);
                } else {
                    assert(order@[x] == old_order[ox]);
                }
            }
            assert forall|x: int, y: int| 0 <= x < order@.len() && 0 <= y < order@.len() && x != y implies
                order@[x] != order@[y] by {
                let ox = if x < p { x } else if x == p { -1 } else { x - 1 };
                let oy = if y < p { y } else if y == p { -1 } else { y - 1 };
                if x != p && y != p {
                    assert(order@[x] == old_order[ox]);
                    assert(order@[y] == old_order[oy]);
                } else if x == p {
                    assert(order@[y] == old_order[oy]);
                } else {
                    assert(order@[x] == old_order[ox]);
                }
            }
        }
        i = i + 1;
    }
    order
}

/// The label of each galaxy mode.
pub open spec fn mode_text(mode: GalaxyMode) -> Seq<char> {
    match mode {
        GalaxyMode::RealUniverse => "Real Universe"@,
        GalaxyMode::Procedural => "Procedural"@,
    }
}

/// Build a GalaxyMode label for display.
pub fn mode_label(mode: GalaxyMode) -> (r: &'static str)
    ensures
        r@ == mode_text(mode),
{
    match mode {
        GalaxyMode::RealUniverse => "Real Universe",
        GalaxyMode::Procedural => "Procedural",
    }
}

} // verus!
