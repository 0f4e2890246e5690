//! Helpers shared by the regional authorities: numbered labels, the
//! conversion of coordinate tables, and the reading of angles that are
//! written in degrees, minutes and seconds.

use crate::cache::{distinct_keys, has_key, KeyedCache};
use crate::geo::Coordinate;
use vstd::prelude::*;

verus! {

/// The character that writes the digit `d`.
pub open spec fn digit(d: int) -> char {
    if d == 0 {
        '0'
    } else if d == 1 {
        '1'
    } else if d == 2 {
        '2'
    } else if d == 3 {
        '3'
    } else if d == 4 {
        '4'
    } else if d == 5 {
        '5'
    } else if d == 6 {
        '6'
    } else if d == 7 {
        '7'
    } else if d == 8 {
        '8'
    } else {
        '9'
    }
}

/// The number `n` written in decimal digits, without leading zeros.
pub open spec fn decimal(n: nat) -> Seq<char>
    decreases n,
{
    if n < 10 {
        seq![digit(n as int)]
    } else {
        decimal(n / 10).push(digit((n % 10) as int))
    }
}

/// A number is written with at least one digit, and with at least two once
/// it reaches ten.
pub proof fn lemma_decimal_len(n: nat)
    ensures
        decimal(n).len() >= 1,
        n >= 10 ==> decimal(n).len() >= 2,
    decreases n,
{
    if n >= 10 {
        lemma_decimal_len(n / 10);
    }
}

/// Two numbers that are written the same are the same number.
pub proof fn lemma_decimal_injective(a: nat, b: nat)
    requires
        decimal(a) == decimal(b),
    ensures
        a == b,
    decreases a,
{
    lemma_decimal_len(a);
    lemma_decimal_len(b);
    if a < 10 {
        assert(decimal(a).len() == 1);
        assert(decimal(a)[0] == digit(a as int));
        assert(decimal(b)[0] == digit(b as int));
    } else {
        let head_a = decimal(a / 10);
        let head_b = decimal(b / 10);
        assert(decimal(a).drop_last() =~= head_a);
        assert(decimal(b).drop_last() =~= head_b);
        assert(decimal(a).last() == digit((a % 10) as int));
        assert(decimal(b).last() == digit((b % 10) as int));
        lemma_decimal_injective(a / 10, b / 10);
    }
}

/// The text of one digit.
fn digit_text(d: usize) -> (text: &'static str)
    requires
        d < 10,
    ensures
        text@ == seq![digit(d as int)],
{
    proof {
        reveal_strlit("0");
        reveal_strlit("1");
        reveal_strlit("2");
        reveal_strlit("3");
        reveal_strlit("4");
        reveal_strlit("5");
        reveal_strlit("6");
        reveal_strlit("7");
        reveal_strlit("8");
        reveal_strlit("9");
    }
    let text = if d == 0 {
        "0"
    } else if d == 1 {
        "1"
    } else if d == 2 {
        "2"
    } else if d == 3 {
        "3"
    } else if d == 4 {
        "4"
    } else if d == 5 {
        "5"
    } else if d == 6 {
        "6"
    } else if d == 7 {
        "7"
    } else if d == 8 {
        "8"
    } else {
        "9"
    };
    assert(text@ =~= seq![digit(d as int)]);
    text
}

/// Writes `n` in decimal digits.
pub fn decimal_string(n: usize) -> (text: String)
    ensures
        text@ == decimal(n as nat),
    decreases n,
{
    if n < 10 {
        digit_text(n).to_string()
    } else {
        let mut text = decimal_string(n / 10);
        text.append(digit_text(n % 10));
        assert(text@ =~= decimal(n as nat));
        text
    }
}

/// The label `prefix` followed by the number `n`.
pub open spec fn numbered(prefix: Seq<char>, n: nat) -> Seq<char> {
    prefix + decimal(n)
}

/// Labels with one prefix and different numbers differ.
pub proof fn lemma_numbered_injective(prefix: Seq<char>, a: nat, b: nat)
    requires
        numbered(prefix, a) == numbered(prefix, b),
    ensures
        a == b,
{
    let la = numbered(prefix, a);
    let lb = numbered(prefix, b);
    assert(la.subrange(prefix.len() as int, la.len() as int) =~= decimal(a));
    assert(lb.subrange(prefix.len() as int, lb.len() as int) =~= decimal(b));
    lemma_decimal_injective(a, b);
}

/// Builds the label `prefix` followed by the number `n`.
pub fn numbered_label(prefix: &str, n: usize) -> (label: String)
    ensures
        label@ == numbered(prefix@, n as nat),
{
    let mut label = prefix.to_string();
    let number = decimal_string(n);
    label.append(number.as_str());
    label
}

/// The text `prefix` followed by `name`.
pub fn prefixed_label(prefix: &str, name: &str) -> (label: String)
    ensures
        label@ == prefix@ + name@,
{
    let mut label = prefix.to_string();
    label.append(name);
    label
}

/// The points of a table of latitude and longitude pairs.
pub open spec fn polygon(points: Seq<(i64, i64)>) -> Seq<Coordinate> {
    Seq::new(
        points.len(),
        |i: int| Coordinate { latitude: points[i].0, longitude: points[i].1 },
    )
}

/// Turns a table of latitude and longitude pairs into points.
pub fn polygon_of<const N: usize>(points: &[(i64, i64); N]) -> (vertices: Vec<Coordinate>)
    ensures
        vertices@ == polygon(points@),
{
    let mut vertices: Vec<Coordinate> = Vec::new();
    let mut i: usize = 0;
    while i < N
        invariant
            0 <= i <= N,
            points@.len() == N,
            vertices@ == polygon(points@).take(i as int),
        decreases N - i,
    {
        let point = points[i];
        vertices.push(Coordinate { latitude: point.0, longitude: point.1 });
        assert(vertices@ =~= polygon(points@).take(i + 1));
        i += 1;
    }
    assert(polygon(points@).take(i as int) =~= polygon(points@));
    vertices
}

/// The points of a table, each under the label `prefix` followed by its
/// place in the table.
pub open spec fn numbered_points(prefix: Seq<char>, points: Seq<(i64, i64)>) -> Seq<
    (Seq<char>, Coordinate),
> {
    Seq::new(
        points.len(),
        |i: int|
            (
                numbered(prefix, i as nat),
                Coordinate { latitude: points[i].0, longitude: points[i].1 },
            ),
    )
}

/// The labels that `numbered_points` gives out differ from one another.
pub proof fn lemma_numbered_points_distinct(prefix: Seq<char>, points: Seq<(i64, i64)>)
    ensures
        distinct_keys(numbered_points(prefix, points)),
{
    let entries = numbered_points(prefix, points);
    assert forall|i: int, j: int| 0 <= i < j < entries.len() implies (#[trigger] entries[i]).0 != (
    #[trigger] entries[j]).0 by {
        if entries[i].0 == entries[j].0 {
            lemma_numbered_injective(prefix, i as nat, j as nat);
        }
    }
}

/// Fills a cache with the points of a table, each under the label `prefix`
/// followed by its place in the table.
pub fn numbered_cache<const N: usize>(prefix: &str, points: &[(i64, i64); N]) -> (cache:
    KeyedCache<Coordinate>)
    ensures
        cache.wf(),
        cache@ == numbered_points(prefix@, points@),
{
    let ghost all = numbered_points(prefix@, points@);
    let mut cache: KeyedCache<Coordinate> = KeyedCache::new();
    let mut i: usize = 0;
    assert(cache@ =~= all.take(0));
    while i < N
        invariant
            0 <= i <= N,
            points@.len() == N,
            all == numbered_points(prefix@, points@),
            cache.wf(),
            cache@ == all.take(i as int),
        decreases N - i,
    {
        let point = points[i];
        let label = numbered_label(prefix, i);
        proof {
            lemma_numbered_points_distinct(prefix@, points@);
            if has_key(cache@, label@) {
                let j = choose|j: int| 0 <= j < cache@.len() && (#[trigger] cache@[j]).0 == label@;
                assert(all[j].0 == all[i as int].0);
            }
        }
        cache.insert(label, Coordinate { latitude: point.0, longitude: point.1 });
        assert(cache@ =~= all.take(i + 1));
        i += 1;
    }
    assert(all.take(i as int) =~= all);
    cache
}

/// Custom error type for the reading of angles.
#[derive(Clone, Copy, Debug, PartialEq, Eq, Structural)]
pub enum DmsError {
    /// The text is not an angle in degrees, minutes and seconds.
    InvalidFormat,
    /// The bearing is none of N, S, E and W.
    InvalidBearing,
}

/// The pattern of an angle in degrees, minutes and seconds with a bearing,
/// such as 51° 30' 0.0" N. Its groups are, in this order, the degrees, the
/// minutes, the seconds and the bearing.
pub const DMS_PATTERN: &'static str =
    "(?P<d>\\d+)°\\s*(?P<m>\\d+)'\\s*(?P<s>\\d+\\.\\d+)\"\\s*(?P<b>N|S|E|W)";

/// The largest number of degrees, of minutes and of whole seconds that is
/// read.
pub const DMS_PART_MAX: u64 = 2_147_483_647;

/// What a search for `pattern` in `text` finds with the crate `regex`:
/// nothing where `Regex::new` does not take the pattern or the pattern
/// matches nowhere in the text, else the groups of the leftmost match, the
/// whole match first, where a group that took no part in the match is
/// `None`.
pub uninterp spec fn regex_captures(pattern: Seq<char>, text: Seq<char>) -> Option<
    Seq<Option<Seq<char>>>,
>;

/// Compiles `pattern` with `regex::Regex::new` and searches `text` with
/// `Regex::captures`. What comes back is what `regex_captures` names: `None`
/// stands for a pattern that does not compile and for a search that finds
/// nothing; the groups are copied out as strings.
#[verifier::external_body]
fn captures(pattern: &str, text: &str) -> (groups: Option<Vec<Option<String>>>)
    ensures
        groups.deep_view() == regex_captures(pattern@, text@),
{
    let compiled = regex::Regex::new(pattern).ok()?;
    compiled
        .captures(text)
        .map(|found| found.iter().map(|group| group.map(|part| part.as_str().to_owned())).collect())
}

/// The digit that `c` writes, if it writes one of the digits 0 to 9.
pub open spec fn digit_value(c: char) -> Option<nat> {
    if c == '0' {
        Some(0)
    } else if c == '1' {
        Some(1)
    } else if c == '2' {
        Some(2)
    } else if c == '3' {
        Some(3)
    } else if c == '4' {
        Some(4)
    } else if c == '5' {
        Some(5)
    } else if c == '6' {
        Some(6)
    } else if c == '7' {
        Some(7)
    } else if c == '8' {
        Some(8)
    } else if c == '9' {
        Some(9)
    } else {
        None
    }
}

/// The number that the decimal digits `text` write. There is none where
/// `text` is empty or holds anything but the digits 0 to 9.
pub open spec fn decimal_value(text: Seq<char>) -> Option<nat>
    decreases text.len(),
{
    if text.len() == 0 {
        None
    } else if text.len() == 1 {
        digit_value(text[0])
    } else {
        match (decimal_value(text.drop_last()), digit_value(text.last())) {
            (Some(head), Some(last)) => Some(head * 10 + last),
            _ => None,
        }
    }
}

/// The number that the decimal digits `text` write, where it is at most
/// `limit`.
pub open spec fn bounded_value(text: Seq<char>, limit: nat) -> Option<nat> {
    match decimal_value(text) {
        Some(n) if n <= limit => Some(n),
        _ => None,
    }
}

/// The value of the digits `text` behind a decimal point, in units of
/// which `place` go into the first digit and a tenth of that, rounded down,
/// into each following one. There is none where `text` holds anything but
/// digits.
pub open spec fn fraction_value(text: Seq<char>, place: nat) -> Option<nat>
    decreases text.len(),
{
    if text.len() == 0 {
        Some(0)
    } else {
        match (digit_value(text[0]), fraction_value(text.drop_first(), place / 10)) {
            (Some(first), Some(rest)) => Some(first * place + rest),
            _ => None,
        }
    }
}

/// The position of the first decimal point in `text`, or the length of
/// `text` where it holds none.
pub open spec fn point_position(text: Seq<char>) -> int
    decreases text.len(),
{
    if text.len() == 0 {
        0
    } else if text[0] == '.' {
        0
    } else {
        1 + point_position(text.drop_first())
    }
}

/// The seconds that `text` writes, in billionths of a second: digits, a
/// decimal point and digits, of which those behind the ninth decimal place
/// do not count. There is none where `text` is written otherwise or its
/// whole seconds pass `DMS_PART_MAX`.
pub open spec fn seconds_value(text: Seq<char>) -> Option<nat> {
    let point = point_position(text);
    if point + 1 >= text.len() {
        None
    } else {
        match (
            bounded_value(text.subrange(0, point), DMS_PART_MAX as nat),
            fraction_value(text.subrange(point + 1, text.len() as int), 100_000_000),
        ) {
            (Some(whole), Some(part)) => Some(whole * 1_000_000_000 + part),
            _ => None,
        }
    }
}

/// Whether a bearing makes an angle count up: north and east do, south and
/// west make it count down, and nothing else is a bearing.
pub open spec fn bearing_sign(text: Seq<char>) -> Option<bool> {
    if text == "N"@ || text == "E"@ {
        Some(true)
    } else if text == "S"@ || text == "W"@ {
        Some(false)
    } else {
        None
    }
}

/// The angle of `degrees`, `minutes` and billionths of a second in units of
/// 1e-7 degree, rounded to the nearest unit and up from the middle between
/// two: a unit is 360000 billionths of a second of arc.
pub open spec fn angle_units(degrees: nat, minutes: nat, seconds: nat) -> nat {
    (((degrees * 3600 + minutes * 60) * 1_000_000_000 + seconds + 180_000) / 360_000) as nat
}

/// The angle, in units of 1e-7 degree, that the groups of a match of
/// `DMS_PATTERN` write, or the reason why they write none.
pub open spec fn dms_value(groups: Option<Seq<Option<Seq<char>>>>) -> Result<int, DmsError> {
    match groups {
        Some(found) if found.len() == 5 => match (found[1], found[2], found[3], found[4]) {
            (Some(degrees), Some(minutes), Some(seconds), Some(bearing)) => match bearing_sign(
                bearing,
            ) {
                None => Err(DmsError::InvalidBearing),
                Some(sign) => match (
                    bounded_value(degrees, DMS_PART_MAX as nat),
                    bounded_value(minutes, DMS_PART_MAX as nat),
                    seconds_value(seconds),
                ) {
                    (Some(d), Some(m), Some(s)) => Ok(
                        if sign {
                            angle_units(d, m, s) as int
                        } else {
                            -(angle_units(d, m, s) as int)
                        },
                    ),
                    _ => Err(DmsError::InvalidFormat),
                },
            },
            _ => Err(DmsError::InvalidFormat),
        },
        _ => Err(DmsError::InvalidFormat),
    }
}

/// Digits that write a number start with digits that write a number which
/// is not larger.
pub proof fn lemma_decimal_prefix(text: Seq<char>, i: int)
    requires
        0 < i <= text.len(),
        decimal_value(text) is Some,
    ensures
        decimal_value(text.take(i)) is Some,
        decimal_value(text.take(i))->0 <= decimal_value(text)->0,
    decreases text.len(),
{
    if i == text.len() {
        assert(text.take(i) =~= text);
    } else {
        assert(text.drop_last().take(i) =~= text.take(i));
        lemma_decimal_prefix(text.drop_last(), i);
    }
}

/// Reads the digit that `c` writes.
pub fn digit_of(c: char) -> (digit: Option<u64>)
    ensures
        digit is Some <==> digit_value(c) is Some,
        digit matches Some(d) ==> digit_value(c) == Some(d as nat) && d <= 9,
{
    if c == '0' {
        Some(0)
    } else if c == '1' {
        Some(1)
    } else if c == '2' {
        Some(2)
    } else if c == '3' {
        Some(3)
    } else if c == '4' {
        Some(4)
    } else if c == '5' {
        Some(5)
    } else if c == '6' {
        Some(6)
    } else if c == '7' {
        Some(7)
    } else if c == '8' {
        Some(8)
    } else if c == '9' {
        Some(9)
    } else {
        None
    }
}

/// Reads the number that the decimal digits `text` write, where it is at
/// most `limit`.
pub fn parse_bounded(text: &str, limit: u64) -> (number: Option<u64>)
    requires
        limit <= 1_000_000_000_000_000_000,
    ensures
        number is Some <==> bounded_value(text@, limit as nat) is Some,
        number matches Some(n) ==> bounded_value(text@, limit as nat) == Some(n as nat),
{
    let n = text.unicode_len();
    let mut number: u64 = 0;
    let mut i: usize = 0;
    while i < n
        invariant
            0 <= i <= n,
            n == text@.len(),
            limit <= 1_000_000_000_000_000_000,
            number <= limit,
            i == 0 ==> number == 0,
            i > 0 ==> decimal_value(text@.take(i as int)) == Some(number as nat),
        decreases n - i,
    {
        let c = text.get_char(i);
        proof {
            assert(text@.take(i + 1).drop_last() =~= text@.take(i as int));
            assert(text@.take(i + 1).last() == text@[i as int]);
            if decimal_value(text@) is Some {
                lemma_decimal_prefix(text@, i + 1);
            }
        }
        match digit_of(c) {
            None => {
                return None;
            },
            Some(d) => {
                number = number * 10 + d;
                if number > limit {
                    return None;
                }
            },
        }
        i += 1;
    }
    if n == 0 {
        return None;
    }
    assert(text@.take(n as int) =~= text@);
    Some(number)
}

/// Reads the value of the digits `text` behind a decimal point in
/// billionths.
pub fn parse_fraction(text: &str) -> (part: Option<u64>)
    ensures
        part is Some <==> fraction_value(text@, 100_000_000) is Some,
        part matches Some(p) ==> fraction_value(text@, 100_000_000) == Some(p as nat) && p
            < 1_000_000_000,
{
    let n = text.unicode_len();
    let mut part: u64 = 0;
    let mut place: u64 = 100_000_000;
    let mut i: usize = 0;
    assert(text@.skip(0) =~= text@);
    while i < n
        invariant
            0 <= i <= n,
            n == text@.len(),
            part + 10 * place <= 1_000_000_000,
            place > 0 || part <= 999_999_999,
            fraction_value(text@, 100_000_000) == match fraction_value(
                text@.skip(i as int),
                place as nat,
            ) {
                Some(rest) => Some(part as nat + rest),
                None => None,
            },
        decreases n - i,
    {
        let c = text.get_char(i);
        proof {
            assert(text@.skip(i as int).drop_first() =~= text@.skip(i + 1));
            assert(text@.skip(i as int)[0] == text@[i as int]);
        }
        match digit_of(c) {
            None => {
                return None;
            },
            Some(d) => {
                assert(d * place <= 9 * place) by (nonlinear_arith)
                    requires
                        d <= 9,
                ;
                part = part + d * place;
                place = place / 10;
            },
        }
        i += 1;
    }
    assert(text@.skip(n as int) =~= Seq::<char>::empty());
    Some(part)
}

/// Finds the first decimal point in `text`.
pub fn find_point(text: &str) -> (point: usize)
    ensures
        point == point_position(text@),
        point <= text@.len(),
{
    let n = text.unicode_len();
    let mut i: usize = 0;
    assert(text@.skip(0) =~= text@);
    while i < n
        invariant
            0 <= i <= n,
            n == text@.len(),
            point_position(text@) == i + point_position(text@.skip(i as int)),
        decreases n - i,
    {
        proof {
            assert(text@.skip(i as int).drop_first() =~= text@.skip(i + 1));
            assert(text@.skip(i as int)[0] == text@[i as int]);
        }
        if text.get_char(i) == '.' {
            return i;
        }
        i += 1;
    }
    assert(text@.skip(n as int) =~= Seq::<char>::empty());
    i
}

/// Reads the seconds that `text` writes, in billionths of a second.
pub fn parse_seconds(text: &str) -> (seconds: Option<u64>)
    ensures
        seconds is Some <==> seconds_value(text@) is Some,
        seconds matches Some(s) ==> seconds_value(text@) == Some(s as nat) && s
            < 2_147_483_648_000_000_000,
{
    let n = text.unicode_len();
    let point = find_point(text);
    if point >= n || point + 1 >= n {
        return None;
    }
    let whole = match parse_bounded(text.substring_char(0, point), DMS_PART_MAX) {
        Some(whole) => whole,
        None => {
            return None;
        },
    };
    let part = match parse_fraction(text.substring_char(point + 1, n)) {
        Some(part) => part,
        None => {
            return None;
        },
    };
    Some(whole * 1_000_000_000 + part)
}

/// Reads whether a bearing makes an angle count up.
pub fn parse_bearing(text: &String) -> (sign: Option<bool>)
    ensures
        sign == bearing_sign(text@),
{
    if *text == "N".to_string() || *text == "E".to_string() {
        Some(true)
    } else if *text == "S".to_string() || *text == "W".to_string() {
        Some(false)
    } else {
        None
    }
}

/// Computes the angle of `degrees`, `minutes` and billionths of a second in
/// units of 1e-7 degree.
pub fn angle_of(degrees: u64, minutes: u64, seconds: u64) -> (units: i64)
    requires
        degrees <= DMS_PART_MAX,
        minutes <= DMS_PART_MAX,
        seconds < 2_147_483_648_000_000_000,
    ensures
        units == angle_units(degrees as nat, minutes as nat, seconds as nat),
{
    let arc_seconds: u128 = (degrees as u128) * 3600 + (minutes as u128) * 60;
    let arc: u128 = arc_seconds * 1_000_000_000 + (seconds as u128);
    let units: u128 = (arc + 180_000) / 360_000;
    units as i64
}

/// Reads the angle, in units of 1e-7 degree, out of the groups of a match
/// of `DMS_PATTERN`, where `None` stands for a search that found nothing.
pub fn dms_from_captures(groups: &Option<Vec<Option<String>>>) -> (angle: Result<i64, DmsError>)
    ensures
        angle matches Ok(units) ==> dms_value(groups.deep_view()) == Ok::<int, DmsError>(
            units as int,
        ),
        angle matches Err(e) ==> dms_value(groups.deep_view()) == Err::<int, DmsError>(e),
{
    let Some(found) = groups else {
        return Err(DmsError::InvalidFormat);
    };
    assert(groups.deep_view() == Some(found.deep_view()));
    assert(found.deep_view().len() == found@.len());
    if found.len() != 5 {
        return Err(DmsError::InvalidFormat);
    }
    assert(found.deep_view()[1] == found@[1].deep_view());
    assert(found.deep_view()[2] == found@[2].deep_view());
    assert(found.deep_view()[3] == found@[3].deep_view());
    assert(found.deep_view()[4] == found@[4].deep_view());
    let (degrees, minutes, seconds, bearing) = match (&found[1], &found[2], &found[3], &found[4]) {
        (Some(d), Some(m), Some(s), Some(b)) => (d, m, s, b),
        _ => {
            return Err(DmsError::InvalidFormat);
        },
    };
    let Some(positive) = parse_bearing(bearing) else {
        return Err(DmsError::InvalidBearing);
    };
    let Some(d) = parse_bounded(degrees.as_str(), DMS_PART_MAX) else {
        return Err(DmsError::InvalidFormat);
    };
    let Some(m) = parse_bounded(minutes.as_str(), DMS_PART_MAX) else {
        return Err(DmsError::InvalidFormat);
    };
    let Some(s) = parse_seconds(seconds.as_str()) else {
        return Err(DmsError::InvalidFormat);
    };
    let units = angle_of(d, m, s);
    proof {
        let view = found.deep_view();
        assert(view[1] == Some(degrees@));
        assert(view[2] == Some(minutes@));
        assert(view[3] == Some(seconds@));
        assert(view[4] == Some(bearing@));
        assert(bounded_value(degrees@, DMS_PART_MAX as nat) == Some(d as nat));
        assert(bounded_value(minutes@, DMS_PART_MAX as nat) == Some(m as nat));
        assert(seconds_value(seconds@) == Some(s as nat));
    }
    if positive {
        Ok(units)
    } else {
        Ok(-units)
    }
}

/// Converts a string in DMS format (e.g. 51° 30' 0.0" N) to decimal
/// degrees, in units of 1e-7 degree. The first place in the text that
/// fits `DMS_PATTERN` is read.
pub fn dms_to_double(dms: &str) -> (angle: Result<i64, DmsError>)
    ensures
        angle matches Ok(units) ==> dms_value(regex_captures(DMS_PATTERN@, dms@)) == Ok::<
            int,
            DmsError,
        >(units as int),
        angle matches Err(e) ==> dms_value(regex_captures(DMS_PATTERN@, dms@)) == Err::<
            int,
            DmsError,
        >(e),
{
    let groups = captures(DMS_PATTERN, dms);
    dms_from_captures(&groups)
}

} // verus!
