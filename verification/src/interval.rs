use vstd::prelude::*;

use crate::decimal::all_digits;
use crate::decimal::dec_str;
use crate::decimal::dec_val;
use crate::decimal::digit_val;
use crate::decimal::is_dec_digit;
use crate::decimal::lemma_dec_str_is_digits;
use crate::decimal::lemma_dec_val_step;
use crate::decimal::u64_to_string;
use crate::error::ApiError;

verus! {

/// The six calendar units a resampling interval may use.
#[derive(Clone, Copy, Debug, PartialEq, Eq, Structural)]
pub enum IntervalUnit {
    Minute,
    Hour,
    Day,
    Week,
    Month,
    Year,
}

/// A parsed resampling interval: a count of one calendar unit.
#[derive(Clone, Copy, Debug, PartialEq, Eq, Structural)]
pub struct Interval {
    pub count: i32,
    pub unit: IntervalUnit,
}

/// A calendar-aware bucket width.  Months stay symbolic in `months`
/// because month lengths vary; every other unit becomes a fixed number of
/// days or microseconds.  The aggregation store interprets the triple.
#[derive(Clone, Copy, Debug, PartialEq, Eq, Structural)]
pub struct BucketWidth {
    pub months: i32,
    pub days: i32,
    pub microseconds: i64,
}

/// A resampling request as it arrives from a caller: the raw interval
/// string, e.g. "1hour" or "30min".
#[derive(Clone, Debug)]
pub struct Resampling {
    pub interval: String,
}

/// The canonical token of each unit.
pub open spec fn unit_token(u: IntervalUnit) -> Seq<char> {
    match u {
        IntervalUnit::Minute => seq!['m', 'i', 'n'],
        IntervalUnit::Hour => seq!['h', 'o', 'u', 'r'],
        IntervalUnit::Day => seq!['d', 'a', 'y'],
        IntervalUnit::Week => seq!['w', 'e', 'e', 'k'],
        IntervalUnit::Month => seq!['m', 'o', 'n', 't', 'h'],
        IntervalUnit::Year => seq!['y', 'e', 'a', 'r'],
    }
}

/// `s` is a well-formed interval string reading count `n` of unit `u`:
/// one or more decimal digits followed immediately by the unit token.
pub open spec fn interval_matches(s: Seq<char>, n: int, u: IntervalUnit) -> bool {
    let k = s.len() - unit_token(u).len();
    &&& 1 <= k
    &&& s.subrange(k, s.len() as int) == unit_token(u)
    &&& all_digits(s.subrange(0, k))
    &&& n == dec_val(s.subrange(0, k))
}

/// `s` matches the strict interval allow-list shape.
pub open spec fn valid_interval(s: Seq<char>) -> bool {
    exists|n: int, u: IntervalUnit| interval_matches(s, n, u)
}

/// A well-formed interval string reads only one way: the unit is pinned
/// by the token the string ends in, and the count by the digits before it.
pub proof fn lemma_interval_match_unique(
    s: Seq<char>,
    n1: int,
    u1: IntervalUnit,
    n2: int,
    u2: IntervalUnit,
)
    requires
        interval_matches(s, n1, u1),
        interval_matches(s, n2, u2),
    ensures
        n1 == n2,
        u1 == u2,
{
    let l1 = unit_token(u1).len() as int;
    let l2 = unit_token(u2).len() as int;
    let k1 = s.len() - l1;
    let k2 = s.len() - l2;
    assert(s.subrange(k1, s.len() as int)[0] == s[k1]);
    assert(s.subrange(k2, s.len() as int)[0] == s[k2]);
    if l1 < l2 {
        assert(is_dec_digit(s.subrange(0, k1)[k2]));
        assert(s.subrange(0, k1)[k2] == s[k2]);
        assert(!is_dec_digit(unit_token(u2)[0]));
        assert(false);
    } else if l2 < l1 {
        assert(is_dec_digit(s.subrange(0, k2)[k1]));
        assert(s.subrange(0, k2)[k1] == s[k1]);
        assert(!is_dec_digit(unit_token(u1)[0]));
        assert(false);
    } else {
        assert(unit_token(u1) == unit_token(u2));
        assert(unit_token(u1)[0] == unit_token(u2)[0]);
        if l1 == 4 {
            assert(unit_token(u1)[1] == unit_token(u2)[1]);
        }
        assert(u1 == u2);
    }
}

/// From a refuted suffix at the digit boundary, no reading of `s` as an
/// interval string exists at all.
proof fn lemma_shape_refuted(s: Seq<char>, k: int)
    requires
        0 <= k <= s.len(),
        forall|j: int| 0 <= j < k ==> is_dec_digit(#[trigger] s[j]),
        k == s.len() || !is_dec_digit(s[k]),
        forall|uu: IntervalUnit|
            1 <= k && (#[trigger] unit_token(uu)).len() == s.len() - k ==> s.subrange(
                k,
                s.len() as int,
            ) != unit_token(uu),
    ensures
        forall|n: int, uu: IntervalUnit| !interval_matches(s, n, uu),
{
    assert forall|n: int, uu: IntervalUnit| !interval_matches(s, n, uu) by {
        if interval_matches(s, n, uu) {
            let l = unit_token(uu).len() as int;
            let k2 = s.len() - l;
            assert(s.subrange(k2, s.len() as int) == unit_token(uu));
            assert(s.subrange(k2, s.len() as int)[0] == s[k2]);
            assert(3 <= l && l <= 5);
            if k2 < k {
                assert(is_dec_digit(s[k2]));
                assert(!is_dec_digit(unit_token(uu)[0]));
                assert(false);
            } else if k2 > k {
                assert(is_dec_digit(s.subrange(0, k2)[k]));
                assert(s.subrange(0, k2)[k] == s[k]);
                assert(false);
            } else {
                assert(unit_token(uu).len() == s.len() - k);
                assert(false);
            }
        }
    }
}

/// Locate the digit prefix and the unit token of an interval string.
/// Returns the digit-prefix length and the unit, or `None` when the
/// string does not have the strict `<digits><unit>` shape.
fn split_shape(s: &str) -> (r: Option<(usize, IntervalUnit)>)
    ensures
        match r {
            Some(ku) => {
                &&& 1 <= ku.0
                &&& ku.0 + unit_token(ku.1).len() == s@.len()
                &&& forall|j: int| 0 <= j < ku.0 ==> is_dec_digit(#[trigger] s@[j])
                &&& interval_matches(s@, dec_val(s@.subrange(0, ku.0 as int)), ku.1)
            },
            None => forall|n: int, u: IntervalUnit| !interval_matches(s@, n, u),
        },
{
    let len = s.unicode_len();
    let mut k: usize = 0;
    let mut scanning = true;
    while scanning && k < len
        invariant
            len == s@.len(),
            k <= len,
            forall|j: int| 0 <= j < k ==> is_dec_digit(#[trigger] s@[j]),
            !scanning ==> k < len && !is_dec_digit(s@[k as int]),
        decreases len - k, (if scanning { 1int } else { 0int }),
    {
        let c = s.get_char(k);
        let v = c as u32;
        if 48 <= v && v <= 57 {
            k = k + 1;
        } else {
            scanning = false;
        }
    }
    if k == 0 {
        proof {
            lemma_shape_refuted(s@, 0);
        }
        return None;
    }
    let m = len - k;
    let picked: Option<IntervalUnit> = if m == 3 {
        let c0 = s.get_char(k);
        let c1 = s.get_char(k + 1);
        let c2 = s.get_char(k + 2);
        if c0 == 'm' && c1 == 'i' && c2 == 'n' {
            Some(IntervalUnit::Minute)
        } else if c0 == 'd' && c1 == 'a' && c2 == 'y' {
            Some(IntervalUnit::Day)
        } else {
            None
        }
    } else if m == 4 {
        let c0 = s.get_char(k);
        let c1 = s.get_char(k + 1);
        let c2 = s.get_char(k + 2);
        let c3 = s.get_char(k + 3);
        if c0 == 'h' && c1 == 'o' && c2 == 'u' && c3 == 'r' {
            Some(IntervalUnit::Hour)
        } else if c0 == 'w' && c1 == 'e' && c2 == 'e' && c3 == 'k' {
            Some(IntervalUnit::Week)
        } else if c0 == 'y' && c1 == 'e' && c2 == 'a' && c3 == 'r' {
            Some(IntervalUnit::Year)
        } else {
            None
        }
    } else if m == 5 {
        let c0 = s.get_char(k);
        let c1 = s.get_char(k + 1);
        let c2 = s.get_char(k + 2);
        let c3 = s.get_char(k + 3);
        let c4 = s.get_char(k + 4);
        if c0 == 'm' && c1 == 'o' && c2 == 'n' && c3 == 't' && c4 == 'h' {
            Some(IntervalUnit::Month)
        } else {
            None
        }
    } else {
        None
    };
    match picked {
        Some(u) => {
            proof {
                assert forall|i: int|
                    0 <= i < s@.subrange(k as int, s@.len() as int).len() implies s@.subrange(
                    k as int,
                    s@.len() as int,
                )[i] == unit_token(u)[i] by {
                    assert(s@.subrange(k as int, s@.len() as int)[i] == s@[k + i]);
                }
                assert(s@.subrange(k as int, s@.len() as int) =~= unit_token(u));
                assert forall|i: int|
                    0 <= i < s@.subrange(0, k as int).len() implies is_dec_digit(
                    #[trigger] s@.subrange(0, k as int)[i],
                ) by {
                    assert(s@.subrange(0, k as int)[i] == s@[i]);
                }
                assert(all_digits(s@.subrange(0, k as int)));
            }
            Some((k, u))
        },
        None => {
            proof {
                assert forall|uu: IntervalUnit|
                    (#[trigger] unit_token(uu)).len() == s@.len() - k implies s@.subrange(
                    k as int,
                    s@.len() as int,
                ) != unit_token(uu) by {
                    if s@.subrange(k as int, s@.len() as int) == unit_token(uu) {
                        assert(s@.subrange(k as int, s@.len() as int)[0] == s@[k as int]);
                        if unit_token(uu).len() >= 2 {
                            assert(s@.subrange(k as int, s@.len() as int)[1] == s@[k + 1]);
                        }
                        if unit_token(uu).len() >= 3 {
                            assert(s@.subrange(k as int, s@.len() as int)[2] == s@[k + 2]);
                        }
                        if unit_token(uu).len() >= 4 {
                            assert(s@.subrange(k as int, s@.len() as int)[3] == s@[k + 3]);
                        }
                        if unit_token(uu).len() >= 5 {
                            assert(s@.subrange(k as int, s@.len() as int)[4] == s@[k + 4]);
                        }
                        assert(false);
                    }
                }
                lemma_shape_refuted(s@, k as int);
            }
            None
        },
    }
}

/// Parse an interval string into its count and unit.
///
/// Returns `InvalidInterval` when the string is not `<digits><unit>` with
/// a recognized unit token, and also when the digit count overflows the
/// count's machine range.
pub fn parse_interval(s: &str) -> (r: Result<Interval, ApiError>)
    ensures
        match r {
            Ok(iv) => {
                &&& 0 <= iv.count
                &&& interval_matches(s@, iv.count as int, iv.unit)
            },
            Err(e) => {
                &&& e == ApiError::InvalidInterval
                &&& forall|n: int, u: IntervalUnit| interval_matches(s@, n, u) ==> n > i32::MAX
            },
        },
{
    let shape = split_shape(s);
    match shape {
        None => Err(ApiError::InvalidInterval),
        Some((k, u)) => {
            let mut acc: u64 = 0;
            let mut over = false;
            let mut i: usize = 0;
            while i < k
                invariant
                    i <= k,
                    k as int <= s@.len(),
                    forall|j: int| 0 <= j < k ==> is_dec_digit(#[trigger] s@[j]),
                    !over ==> acc == dec_val(s@.subrange(0, i as int)) && acc <= i32::MAX as u64,
                    over ==> dec_val(s@.subrange(0, i as int)) > i32::MAX,
                decreases k - i,
            {
                let c = s.get_char(i);
                let d = (c as u32 - 48) as u64;
                proof {
                    lemma_dec_val_step(s@, i as int);
                }
                if over {
                } else if acc > 214748364u64 || (acc == 214748364u64 && d > 7) {
                    over = true;
                } else {
                    acc = acc * 10 + d;
                }
                i = i + 1;
            }
            if over {
                proof {
                    assert forall|n: int, uu: IntervalUnit|
                        interval_matches(s@, n, uu) implies n > i32::MAX by {
                        lemma_interval_match_unique(
                            s@,
                            n,
                            uu,
                            dec_val(s@.subrange(0, k as int)),
                            u,
                        );
                    }
                }
                Err(ApiError::InvalidInterval)
            } else {
                Ok(Interval { count: acc as i32, unit: u })
            }
        },
    }
}

/// Minutes of the hours-per-interval scalar contributed by one unit:
/// the scalar is kept exact as minutes (hours times sixty).  A month
/// counts as 730 hours, a year as 8760.
pub open spec fn unit_minutes(u: IntervalUnit) -> int {
    match u {
        IntervalUnit::Minute => 1,
        IntervalUnit::Hour => 60,
        IntervalUnit::Day => 1440,
        IntervalUnit::Week => 10080,
        IntervalUnit::Month => 43800,
        IntervalUnit::Year => 525600,
    }
}

/// The bucket width `w` renders count `n` of unit `u` faithfully.
pub open spec fn width_matches(w: BucketWidth, n: int, u: IntervalUnit) -> bool {
    match u {
        IntervalUnit::Minute => w.months == 0 && w.days == 0 && w.microseconds == n * 60_000_000,
        IntervalUnit::Hour => w.months == 0 && w.days == 0 && w.microseconds == n * 3_600_000_000,
        IntervalUnit::Day => w.months == 0 && w.days == n && w.microseconds == 0,
        IntervalUnit::Week => w.months == 0 && w.days == 7 * n && w.microseconds == 0,
        IntervalUnit::Month => w.months == n && w.days == 0 && w.microseconds == 0,
        IntervalUnit::Year => w.months == 12 * n && w.days == 0 && w.microseconds == 0,
    }
}

/// Count `n` of unit `u` fits the machine fields of a bucket width.
pub open spec fn width_representable(n: int, u: IntervalUnit) -> bool {
    &&& n <= i32::MAX
    &&& (u == IntervalUnit::Year ==> 12 * n <= i32::MAX)
    &&& (u == IntervalUnit::Week ==> 7 * n <= i32::MAX)
}

impl IntervalUnit {
    /// The canonical token of this unit, as the allow-list writes it.
    pub fn token(&self) -> (r: &'static str)
        ensures
            r@ == unit_token(*self),
    {
        proof {
            reveal_strlit("min");
            reveal_strlit("hour");
            reveal_strlit("day");
            reveal_strlit("week");
            reveal_strlit("month");
            reveal_strlit("year");
        }
        match self {
            IntervalUnit::Minute => "min",
            IntervalUnit::Hour => "hour",
            IntervalUnit::Day => "day",
            IntervalUnit::Week => "week",
            IntervalUnit::Month => "month",
            IntervalUnit::Year => "year",
        }
    }
}

impl Interval {
    /// The hours-per-interval scalar of this interval, exact, in minutes.
    ///
    /// Used to convert power (rate) aggregates into energy; callers must
    /// not assume it equals calendar-exact hours for months and years.
    pub fn minutes_per_interval(&self) -> (m: u64)
        requires
            0 <= self.count,
        ensures
            m == self.count * unit_minutes(self.unit),
    {
        let c = self.count as u64;
        match self.unit {
            IntervalUnit::Minute => c,
            IntervalUnit::Hour => c * 60,
            IntervalUnit::Day => c * 1440,
            IntervalUnit::Week => c * 10080,
            IntervalUnit::Month => c * 43800,
            IntervalUnit::Year => c * 525600,
        }
    }

    /// The calendar-aware bucket width of this interval, or
    /// `InvalidInterval` when a field would overflow its machine range.
    pub fn bucket_width(&self) -> (r: Result<BucketWidth, ApiError>)
        requires
            0 <= self.count,
        ensures
            match r {
                Ok(w) => width_matches(w, self.count as int, self.unit) && width_representable(
                    self.count as int,
                    self.unit,
                ),
                Err(e) => e == ApiError::InvalidInterval && !width_representable(
                    self.count as int,
                    self.unit,
                ),
            },
    {
        match self.unit {
            IntervalUnit::Minute => Ok(
                BucketWidth { months: 0, days: 0, microseconds: self.count as i64 * 60_000_000 },
            ),
            IntervalUnit::Hour => Ok(
                BucketWidth { months: 0, days: 0, microseconds: self.count as i64 * 3_600_000_000 },
            ),
            IntervalUnit::Day => Ok(BucketWidth { months: 0, days: self.count, microseconds: 0 }),
            IntervalUnit::Week => {
                if self.count > 306783378 {
                    Err(ApiError::InvalidInterval)
                } else {
                    Ok(BucketWidth { months: 0, days: 7 * self.count, microseconds: 0 })
                }
            },
            IntervalUnit::Month => Ok(BucketWidth { months: self.count, days: 0, microseconds: 0 }),
            IntervalUnit::Year => {
                if self.count > 178956970 {
                    Err(ApiError::InvalidInterval)
                } else {
                    Ok(BucketWidth { months: 12 * self.count, days: 0, microseconds: 0 })
                }
            },
        }
    }
}

/// Round trip: the canonical rendering of a count and unit reads back
/// as exactly that count and unit.
pub proof fn lemma_render_parses(n: nat, u: IntervalUnit)
    ensures
        interval_matches(dec_str(n) + unit_token(u), n as int, u),
{
    lemma_dec_str_is_digits(n);
    let s = dec_str(n) + unit_token(u);
    let k = s.len() - unit_token(u).len();
    assert(k == dec_str(n).len());
    assert(s.subrange(k as int, s.len() as int) =~= unit_token(u));
    assert(s.subrange(0, k as int) =~= dec_str(n));
}

impl Interval {
    /// Render this interval in canonical allow-list form: the decimal
    /// count, then the unit token.  The result always matches the
    /// strict validation shape, which is what makes it safe to
    /// substitute into an interval-templated query; raw user text never
    /// is.
    pub fn canonical_string(&self) -> (s: String)
        requires
            0 <= self.count,
        ensures
            s@ == dec_str(self.count as nat) + unit_token(self.unit),
            interval_matches(s@, self.count as int, self.unit),
            valid_interval(s@),
    {
        let mut s = u64_to_string(self.count as u64);
        s.append(self.unit.token());
        proof {
            lemma_render_parses(self.count as nat, self.unit);
        }
        s
    }
}

impl Resampling {
    /// Parse this request's raw interval string.
    pub fn parse(&self) -> (r: Result<Interval, ApiError>)
        ensures
            match r {
                Ok(iv) => 0 <= iv.count && interval_matches(self.interval@, iv.count as int, iv.unit),
                Err(e) => {
                    &&& e == ApiError::InvalidInterval
                    &&& forall|n: int, u: IntervalUnit|
                        interval_matches(self.interval@, n, u) ==> n > i32::MAX
                },
            },
    {
        parse_interval(self.interval.as_str())
    }

    /// Map the raw interval string to a calendar-aware bucket width.
    /// Together with the uniqueness of interval readings this pins the
    /// result: equal strings always map to the same width, and success
    /// and failure exclude each other.
    pub fn map_interval(&self) -> (r: Result<BucketWidth, ApiError>)
        ensures
            match r {
                Ok(w) => exists|n: int, u: IntervalUnit|
                    interval_matches(self.interval@, n, u) && width_matches(w, n, u)
                        && width_representable(n, u),
                Err(e) => {
                    &&& e == ApiError::InvalidInterval
                    &&& forall|n: int, u: IntervalUnit|
                        interval_matches(self.interval@, n, u) ==> !width_representable(n, u)
                },
            },
    {
        match self.parse() {
            Err(e) => {
                proof {
                    assert forall|n: int, u: IntervalUnit|
                        interval_matches(self.interval@, n, u) implies !width_representable(
                        n,
                        u,
                    ) by {}
                }
                Err(e)
            },
            Ok(iv) => {
                match iv.bucket_width() {
                    Ok(w) => Ok(w),
                    Err(e) => {
                        proof {
                            assert forall|n: int, u: IntervalUnit|
                                interval_matches(self.interval@, n, u) implies !width_representable(
                                n,
                                u,
                            ) by {
                                lemma_interval_match_unique(
                                    self.interval@,
                                    n,
                                    u,
                                    iv.count as int,
                                    iv.unit,
                                );
                            }
                        }
                        Err(e)
                    },
                }
            },
        }
    }

    /// Strict allow-list validation of the raw interval string, applied
    /// on every formula path before the interval reaches a query.
    pub fn validate_interval(&self) -> (b: bool)
        ensures
            b == valid_interval(self.interval@),
    {
        let shape = split_shape(self.interval.as_str());
        match shape {
            Some((k, u)) => {
                proof {
                    assert(interval_matches(
                        self.interval@,
                        dec_val(self.interval@.subrange(0, k as int)),
                        u,
                    ));
                }
                true
            },
            None => false,
        }
    }

    /// The hours-per-interval scalar of the raw string, exact, in minutes.
    pub fn minutes_per_interval(&self) -> (r: Result<u64, ApiError>)
        ensures
            match r {
                Ok(m) => exists|n: int, u: IntervalUnit|
                    interval_matches(self.interval@, n, u) && m == n * unit_minutes(u)
                        && n <= i32::MAX,
                Err(e) => {
                    &&& e == ApiError::InvalidInterval
                    &&& forall|n: int, u: IntervalUnit|
                        interval_matches(self.interval@, n, u) ==> n > i32::MAX
                },
            },
    {
        match self.parse() {
            Err(e) => Err(e),
            Ok(iv) => Ok(iv.minutes_per_interval()),
        }
    }
}

impl Default for Resampling {
    /// The default resampling interval is "1hour".
    fn default() -> (r: Self)
        ensures
            r.interval@ == "1hour"@,
    {
        Resampling { interval: String::from_str("1hour") }
    }
}

} // verus!
