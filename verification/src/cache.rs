use vstd::prelude::*;

use crate::decimal::dec_str;
use crate::decimal::i64_to_string;
use crate::decimal::int_str;
use crate::decimal::is_dec_digit;
use crate::decimal::lemma_dec_str_injective;
use crate::decimal::lemma_dec_str_is_digits;
use crate::decimal::lemma_int_str_free_of;
use crate::decimal::lemma_int_str_injective;
use crate::decimal::u64_to_string;
use crate::interval::Interval;
use crate::interval::IntervalUnit;
use crate::interval::unit_token;
use crate::kpi::TimeRange;

verus! {

/// Every KPI cache entry lives this many seconds.
pub const KPI_CACHE_TTL_SECONDS: u64 = 300;

/// The cache key of one KPI request: the KPI name, the resolved window,
/// the parsed interval in canonical count-and-unit form, and the
/// resolved emission-factor source where the KPI uses one, separated by
/// a character none of the numeric fields contains.  Building the key
/// from the parsed interval rather than the raw string means that two
/// spellings of the same count and unit share an entry.
pub open spec fn key_spec(
    name: Seq<char>,
    from: int,
    to: int,
    count: int,
    u: IntervalUnit,
    source: Option<Seq<char>>,
) -> Seq<char> {
    name + seq!['|'] + int_str(from) + seq!['|'] + int_str(to) + seq!['|'] + dec_str(count as nat)
        + unit_token(u) + match source {
        Option::Some(s) => seq!['|'] + s,
        Option::None => Seq::empty(),
    }
}

/// Build the cache key of one KPI request.
pub fn cache_key(name: &str, range: TimeRange, interval: &Interval, source: Option<&str>) -> (k:
    String)
    requires
        0 <= interval.count,
    ensures
        k@ == key_spec(
            name@,
            range.from_micros as int,
            range.to_micros as int,
            interval.count as int,
            interval.unit,
            match source {
                Option::Some(s) => Option::Some(s@),
                Option::None => Option::<Seq<char>>::None,
            },
        ),
{
    proof {
        reveal_strlit("|");
    }
    let mut k = String::from_str(name);
    k.append("|");
    let from_part = i64_to_string(range.from_micros);
    k.append(from_part.as_str());
    k.append("|");
    let to_part = i64_to_string(range.to_micros);
    k.append(to_part.as_str());
    k.append("|");
    let count_part = u64_to_string(interval.count as u64);
    k.append(count_part.as_str());
    k.append(interval.unit.token());
    match source {
        Option::Some(s) => {
            k.append("|");
            k.append(s);
        },
        Option::None => {},
    }
    k
}

/// Splitting at a separator that neither prefix contains is unique.
proof fn lemma_sep_split(a1: Seq<char>, b1: Seq<char>, a2: Seq<char>, b2: Seq<char>)
    requires
        a1 + seq!['|'] + b1 == a2 + seq!['|'] + b2,
        !a1.contains('|'),
        !a2.contains('|'),
    ensures
        a1 == a2,
        b1 == b2,
{
    let s = a1 + seq!['|'] + b1;
    let t = a2 + seq!['|'] + b2;
    if a1.len() < a2.len() {
        assert(s[a1.len() as int] == '|');
        assert(t[a1.len() as int] == a2[a1.len() as int]);
        assert(a2.contains('|')) by {
            assert(a2[a1.len() as int] == '|');
        }
        assert(false);
    } else if a2.len() < a1.len() {
        assert(t[a2.len() as int] == '|');
        assert(s[a2.len() as int] == a1[a2.len() as int]);
        assert(a1.contains('|')) by {
            assert(a1[a2.len() as int] == '|');
        }
        assert(false);
    }
    assert(a1.len() == a2.len());
    assert forall|i: int| 0 <= i < a1.len() implies a1[i] == a2[i] by {
        assert(s[i] == a1[i]);
        assert(t[i] == a2[i]);
    }
    assert(a1 =~= a2);
    assert(s.len() == a1.len() + 1 + b1.len());
    assert(t.len() == a2.len() + 1 + b2.len());
    assert(b1.len() == b2.len());
    assert forall|i: int| 0 <= i < b1.len() implies b1[i] == b2[i] by {
        assert(s[a1.len() + 1 + i] == b1[i]);
        assert(t[a2.len() + 1 + i] == b2[i]);
    }
    assert(b1 =~= b2);
}

/// The trailing segment of a key splits uniquely into the count's
/// digits, a unit token and the source tail.
proof fn lemma_tail_split(
    c1: nat,
    u1: IntervalUnit,
    t1: Seq<char>,
    c2: nat,
    u2: IntervalUnit,
    t2: Seq<char>,
)
    requires
        dec_str(c1) + unit_token(u1) + t1 == dec_str(c2) + unit_token(u2) + t2,
        t1.len() == 0 || t1[0] == '|',
        t2.len() == 0 || t2[0] == '|',
    ensures
        c1 == c2,
        u1 == u2,
        t1 == t2,
{
    lemma_dec_str_is_digits(c1);
    lemma_dec_str_is_digits(c2);
    let d1 = dec_str(c1);
    let d2 = dec_str(c2);
    let s = d1 + unit_token(u1) + t1;
    let t = d2 + unit_token(u2) + t2;
    let k1 = d1.len() as int;
    let k2 = d2.len() as int;
    let l1 = unit_token(u1).len() as int;
    let l2 = unit_token(u2).len() as int;
    assert(s.len() == k1 + l1 + t1.len());
    assert(t.len() == k2 + l2 + t2.len());
    if k1 < k2 {
        assert(s[k1] == unit_token(u1)[0]);
        assert(!is_dec_digit(unit_token(u1)[0]));
        assert(t[k1] == d2[k1]);
        assert(is_dec_digit(d2[k1]));
        assert(false);
    } else if k2 < k1 {
        assert(t[k2] == unit_token(u2)[0]);
        assert(!is_dec_digit(unit_token(u2)[0]));
        assert(s[k2] == d1[k2]);
        assert(is_dec_digit(d1[k2]));
        assert(false);
    }
    assert forall|i: int| 0 <= i < k1 implies d1[i] == d2[i] by {
        assert(s[i] == d1[i]);
        assert(t[i] == d2[i]);
    }
    assert(d1 =~= d2);
    lemma_dec_str_injective(c1, c2);
    if l1 < l2 {
        assert(t[k1 + l1] == unit_token(u2)[l1]);
        assert(unit_token(u2)[l1] != '|');
        if t1.len() == 0 {
            assert(s.len() == k1 + l1);
            assert(false);
        } else {
            assert(s[k1 + l1] == t1[0]);
            assert(false);
        }
    } else if l2 < l1 {
        assert(s[k2 + l2] == unit_token(u1)[l2]);
        assert(unit_token(u1)[l2] != '|');
        if t2.len() == 0 {
            assert(t.len() == k2 + l2);
            assert(false);
        } else {
            assert(t[k2 + l2] == t2[0]);
            assert(false);
        }
    }
    assert(s[k1] == unit_token(u1)[0]);
    assert(t[k1] == unit_token(u2)[0]);
    assert(u1 == u2);
    assert(t1.len() == t2.len());
    assert forall|i: int| 0 <= i < t1.len() implies t1[i] == t2[i] by {
        assert(s[k1 + l1 + i] == t1[i]);
        assert(t[k2 + l2 + i] == t2[i]);
    }
    assert(t1 =~= t2);
}

/// The source tail of a key, empty or the separator and the source.
spec fn source_tail(source: Option<Seq<char>>) -> Seq<char> {
    match source {
        Option::Some(s) => seq!['|'] + s,
        Option::None => Seq::empty(),
    }
}

/// Distinct query parameters never collide: two requests share a cache
/// key only when the KPI name, the resolved window, the parsed interval
/// and the resolved source all agree.  The KPI names the library uses
/// contain no separator character.
#[verifier::rlimit(100)]
pub proof fn lemma_cache_key_injective(
    name1: Seq<char>,
    from1: int,
    to1: int,
    count1: int,
    u1: IntervalUnit,
    source1: Option<Seq<char>>,
    name2: Seq<char>,
    from2: int,
    to2: int,
    count2: int,
    u2: IntervalUnit,
    source2: Option<Seq<char>>,
)
    requires
        key_spec(name1, from1, to1, count1, u1, source1) == key_spec(
            name2,
            from2,
            to2,
            count2,
            u2,
            source2,
        ),
        !name1.contains('|'),
        !name2.contains('|'),
        0 <= count1,
        0 <= count2,
    ensures
        name1 == name2,
        from1 == from2,
        to1 == to2,
        count1 == count2,
        u1 == u2,
        source1 == source2,
{
    let sep = seq!['|'];
    let tail1 = source_tail(source1);
    let tail2 = source_tail(source2);
    let seg1 = dec_str(count1 as nat) + unit_token(u1) + tail1;
    let seg2 = dec_str(count2 as nat) + unit_token(u2) + tail2;
    let r1 = int_str(to1) + sep + seg1;
    let r2 = int_str(to2) + sep + seg2;
    let q1 = int_str(from1) + sep + r1;
    let q2 = int_str(from2) + sep + r2;
    assert(key_spec(name1, from1, to1, count1, u1, source1) =~= name1 + sep + q1);
    assert(key_spec(name2, from2, to2, count2, u2, source2) =~= name2 + sep + q2);
    lemma_sep_split(name1, q1, name2, q2);
    lemma_int_str_free_of(from1, '|');
    lemma_int_str_free_of(from2, '|');
    lemma_sep_split(int_str(from1), r1, int_str(from2), r2);
    lemma_int_str_injective(from1, from2);
    lemma_int_str_free_of(to1, '|');
    lemma_int_str_free_of(to2, '|');
    lemma_sep_split(int_str(to1), seg1, int_str(to2), seg2);
    lemma_int_str_injective(to1, to2);
    lemma_tail_split(count1 as nat, u1, tail1, count2 as nat, u2, tail2);
    match (source1, source2) {
        (Option::Some(s1), Option::Some(s2)) => {
            assert(tail1.subrange(1, tail1.len() as int) =~= s1);
            assert(tail2.subrange(1, tail2.len() as int) =~= s2);
        },
        (Option::Some(s1), Option::None) => {
            assert(tail1.len() >= 1);
            assert(false);
        },
        (Option::None, Option::Some(s2)) => {
            assert(tail2.len() >= 1);
            assert(false);
        },
        (Option::None, Option::None) => {},
    }
}

/// One stored cache entry.  `expires_at` is the second the entry stops
/// being served; an entry written without a TTL never expires.
#[derive(Clone, Debug)]
pub struct CacheEntry {
    pub key: String,
    pub value: String,
    pub expires_at: Option<u64>,
}

/// First-match lookup among entries ordered newest first.
pub open spec fn entries_lookup(s: Seq<CacheEntry>, k: Seq<char>) -> Option<(Seq<char>, Option<int>)>
    decreases s.len(),
{
    if s.len() == 0 {
        Option::None
    } else if s[0].key@ == k {
        Option::Some(
            (
                s[0].value@,
                match s[0].expires_at {
                    Option::Some(e) => Option::Some(e as int),
                    Option::None => Option::None,
                },
            ),
        )
    } else {
        entries_lookup(s.subrange(1, s.len() as int), k)
    }
}

/// Writing a key binds it to the value and expiry.
pub open spec fn spec_set(
    m: Map<Seq<char>, (Seq<char>, Option<int>)>,
    k: Seq<char>,
    v: Seq<char>,
    expires_at: Option<int>,
) -> Map<Seq<char>, (Seq<char>, Option<int>)> {
    m.insert(k, (v, expires_at))
}

/// Reading a key at time `now` yields its value while the key is bound
/// and not expired, and a miss otherwise.
pub open spec fn spec_get(
    m: Map<Seq<char>, (Seq<char>, Option<int>)>,
    k: Seq<char>,
    now: int,
) -> Option<Seq<char>> {
    if m.contains_key(k) {
        match m[k].1 {
            Option::Some(e) => {
                if now < e {
                    Option::Some(m[k].0)
                } else {
                    Option::None
                }
            },
            Option::None => Option::Some(m[k].0),
        }
    } else {
        Option::None
    }
}

/// Cache transparency: a key read back within its TTL window yields
/// exactly the value the writer stored, so a request served from a warm
/// entry returns the same payload a fresh computation wrote.
pub proof fn lemma_cache_round_trip(
    m: Map<Seq<char>, (Seq<char>, Option<int>)>,
    k: Seq<char>,
    v: Seq<char>,
    expires_at: int,
    now: int,
)
    requires
        now < expires_at,
    ensures
        spec_get(spec_set(m, k, v, Option::Some(expires_at)), k, now) == Option::Some(v),
{
}

/// An in-memory model of the result cache: an opaque-string store with
/// per-entry expiry, newest entry first.  A rewritten key shadows the
/// older entries the backing store would have replaced.
#[derive(Clone, Debug)]
pub struct Cache {
    entries: Vec<CacheEntry>,
}

impl Cache {
    /// What the cache holds: each live key with its value and expiry.
    pub closed spec fn contents(&self) -> Map<Seq<char>, (Seq<char>, Option<int>)> {
        Map::new(
            |k: Seq<char>| entries_lookup(self.entries@, k) is Some,
            |k: Seq<char>| entries_lookup(self.entries@, k)->0,
        )
    }

    /// An empty cache.
    pub fn new() -> (r: Cache)
        ensures
            r.contents() == Map::<Seq<char>, (Seq<char>, Option<int>)>::empty(),
    {
        let c = Cache { entries: Vec::new() };
        proof {
            assert(c.contents() =~= Map::<Seq<char>, (Seq<char>, Option<int>)>::empty());
        }
        c
    }

    /// Read a key at time `now` (seconds).
    pub fn get(&self, key: &str, now: u64) -> (r: Option<String>)
        ensures
            match r {
                Option::Some(v) => spec_get(self.contents(), key@, now as int) == Option::Some(v@),
                Option::None => spec_get(self.contents(), key@, now as int) is None,
            },
    {
        let owned = key.to_owned();
        let n = self.entries.len();
        proof {
            assert(self.entries@.subrange(0, n as int) =~= self.entries@);
        }
        let mut i: usize = 0;
        while i < n
            invariant
                i <= n,
                n == self.entries@.len(),
                owned@ == key@,
                entries_lookup(self.entries@, key@) == entries_lookup(
                    self.entries@.subrange(i as int, n as int),
                    key@,
                ),
                forall|j: int| 0 <= j < i ==> (#[trigger] self.entries@[j]).key@ != key@,
            decreases n - i,
        {
            let entry = &self.entries[i];
            proof {
                assert(self.entries@.subrange(i as int, n as int)[0] == self.entries@[i as int]);
            }
            if entry.key == owned {
                match entry.expires_at {
                    Option::Some(e) => {
                        if now < e {
                            return Option::Some(entry.value.clone());
                        } else {
                            return Option::None;
                        }
                    },
                    Option::None => {
                        return Option::Some(entry.value.clone());
                    },
                }
            }
            proof {
                assert(self.entries@.subrange(i as int, n as int).subrange(
                    1,
                    (n - i) as int,
                ) =~= self.entries@.subrange(i as int + 1, n as int));
            }
            i = i + 1;
        }
        proof {
            assert(self.entries@.subrange(n as int, n as int).len() == 0);
        }
        Option::None
    }

    /// Write a key.  A positive TTL expires the entry `ttl_seconds`
    /// after `now`; a zero TTL stores it without expiry, as the backing
    /// store would.
    pub fn set(&mut self, key: &str, value: &str, ttl_seconds: u64, now: u64)
        requires
            now + ttl_seconds <= u64::MAX,
        ensures
            final(self).contents() == spec_set(
                old(self).contents(),
                key@,
                value@,
                if ttl_seconds > 0 {
                    Option::Some(now + ttl_seconds)
                } else {
                    Option::<int>::None
                },
            ),
    {
        let expires_at: Option<u64> = if ttl_seconds > 0 {
            Option::Some(now + ttl_seconds)
        } else {
            Option::None
        };
        let entry = CacheEntry { key: key.to_owned(), value: value.to_owned(), expires_at };
        self.entries.insert(0, entry);
        proof {
            let s = self.entries@;
            let t = old(self).entries@;
            assert(s.subrange(1, s.len() as int) =~= t);
            assert forall|k: Seq<char>| true implies #[trigger] entries_lookup(s, k)
                == if k == key@ {
                entries_lookup(s, key@)
            } else {
                entries_lookup(t, k)
            } by {
                if k != key@ {
                    assert(s[0].key@ == key@);
                }
            }
            assert(final(self).contents() =~= spec_set(
                old(self).contents(),
                key@,
                value@,
                if ttl_seconds > 0 {
                    Option::Some((now + ttl_seconds) as int)
                } else {
                    Option::<int>::None
                },
            ));
        }
    }
}

} // verus!
