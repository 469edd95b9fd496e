use vstd::prelude::*;

use crate::error::AppError;
use crate::text::chars_of;

verus! {

/// The quota of one resource class on one platform, as last reported.
#[derive(Debug)]
pub struct RateLimit {
    pub max: i64,
    pub remaining: i64,
    pub used: i64,
    /// Epoch seconds at which the budget is renewed.
    pub reset_at: i64,
    pub resource: String,
}

/// The raw quota headers of a response; `None` where a header is absent or
/// not valid text.
#[derive(Debug, Clone)]
pub struct RateLimitHeaders {
    pub limit: Option<String>,
    pub remaining: Option<String>,
    pub used: Option<String>,
    pub reset: Option<String>,
    pub resource: Option<String>,
}

pub open spec fn is_digit(c: char) -> bool {
    '0' <= c <= '9'
}

pub open spec fn digit_value(c: char) -> int {
    c as int - '0' as int
}

/// The value of a string of decimal digits.
pub open spec fn decimal_value(digits: Seq<char>) -> int
    decreases digits.len(),
{
    if digits.len() == 0 {
        0
    } else {
        decimal_value(digits.drop_last()) * 10 + digit_value(digits.last())
    }
}

pub open spec fn all_digits(s: Seq<char>) -> bool {
    forall|i: int| 0 <= i < s.len() ==> is_digit(#[trigger] s[i])
}

/// The integer that `s` writes in decimal: an optional `+` or `-`, then one
/// or more digits; `None` when `s` has another shape or the value does not
/// fit in an `i64`.
pub open spec fn parse_decimal(s: Seq<char>) -> Option<i64> {
    let neg = s.len() > 0 && s[0] == '-';
    let start: int = if s.len() > 0 && (s[0] == '-' || s[0] == '+') { 1 } else { 0 };
    let digits = s.subrange(start, s.len() as int);
    let v = if neg { -decimal_value(digits) } else { decimal_value(digits) };
    if digits.len() > 0 && all_digits(digits) && i64::MIN <= v <= i64::MAX {
        Some(v as i64)
    } else {
        None
    }
}

proof fn lemma_decimal_value_grows(digits: Seq<char>, n: int)
    requires
        0 <= n <= digits.len(),
        all_digits(digits),
    ensures
        0 <= decimal_value(digits.subrange(0, n)) <= decimal_value(digits),
    decreases digits.len() - n,
{
    lemma_decimal_nonneg(digits);
    if n < digits.len() {
        let d = digits.drop_last();
        assert(all_digits(d)) by {
            assert forall|i: int| 0 <= i < d.len() implies is_digit(#[trigger] d[i]) by {
                assert(d[i] == digits[i]);
            }
        }
        lemma_decimal_value_grows(d, n);
        assert(d.subrange(0, n) =~= digits.subrange(0, n));
        lemma_decimal_nonneg(d);
        assert(is_digit(digits[digits.len() - 1]));
    } else {
        assert(digits.subrange(0, n) =~= digits);
    }
}

proof fn lemma_decimal_nonneg(digits: Seq<char>)
    requires
        all_digits(digits),
    ensures
        0 <= decimal_value(digits),
    decreases digits.len(),
{
    if digits.len() > 0 {
        let d = digits.drop_last();
        assert(all_digits(d)) by {
            assert forall|i: int| 0 <= i < d.len() implies is_digit(#[trigger] d[i]) by {
                assert(d[i] == digits[i]);
            }
        }
        lemma_decimal_nonneg(d);
        assert(is_digit(digits[digits.len() - 1]));
    }
}

/// Parses a decimal integer the way `i64`'s `FromStr` reads it.
pub fn parse_decimal_i64(s: &str) -> (r: Option<i64>)
    ensures
        r == parse_decimal(s@),
{
    let c = chars_of(s);
    let n: usize = c.len();
    let neg = n > 0 && c[0] == '-';
    let start: usize = if n > 0 && (c[0] == '-' || c[0] == '+') { 1 } else { 0 };
    let ghost digits = s@.subrange(start as int, n as int);
    if start >= n {
        return None;
    }
    let limit: u128 = 0x8000_0000_0000_0000;
    let mut mag: u128 = 0;
    let mut i: usize = start;
    while i < n
        invariant
            c@ == s@,
            n == c@.len(),
            start <= i <= n,
            start == (if n > 0 && (s@[0] == '-' || s@[0] == '+') { 1int } else { 0int }),
            limit == 0x8000_0000_0000_0000,
            digits == s@.subrange(start as int, n as int),
            forall|j: int| start <= j < i ==> is_digit(#[trigger] c@[j]),
            mag == decimal_value(c@.subrange(start as int, i as int)),
            mag <= limit,
        decreases n - i,
    {
        let ch = c[i];
        if !('0' <= ch && ch <= '9') {
            proof {
                assert(digits[i - start] == c@[i as int]);
                assert(!is_digit(digits[i - start]));
                assert(!all_digits(digits));
                assert(parse_decimal(s@) is None);
            }
            return None;
        }
        let ghost prev = c@.subrange(start as int, i as int);
        assert(mag * 10 <= limit * 10) by (nonlinear_arith)
            requires
                mag <= limit,
        ;
        let d: u32 = ch as u32 - '0' as u32;
        assert(d <= 9);
        mag = mag * 10 + d as u128;
        i = i + 1;
        proof {
            assert(c@.subrange(start as int, i as int).drop_last() =~= prev);
        }
        if mag > limit {
            proof {
                assert(all_digits(c@.subrange(start as int, i as int)));
                if all_digits(digits) {
                    assert(digits.subrange(0, i - start) =~= c@.subrange(start as int, i as int));
                    lemma_decimal_value_grows(digits, i - start);
                }
            }
            return None;
        }
    }
    proof {
        assert(c@.subrange(start as int, n as int) =~= digits);
        assert(all_digits(digits)) by {
            assert forall|j: int| 0 <= j < digits.len() implies is_digit(#[trigger] digits[j]) by {
                assert(digits[j] == c@[start + j]);
            }
        }
    }
    if neg {
        let m = mag as i128;
        Some((-m) as i64)
    } else if mag <= 0x7fff_ffff_ffff_ffff {
        Some(mag as i64)
    } else {
        None
    }
}

/// Reads a numeric quota header; absent or malformed reads as `None`.
pub fn parse_header_num(value: &Option<String>) -> (r: Option<i64>)
    ensures
        r == match value {
            Some(v) => parse_decimal(v@),
            None => None::<i64>,
        },
{
    match value {
        Some(v) => parse_decimal_i64(v.as_str()),
        None => None,
    }
}

/// The quota that a response's headers report: numbers that are absent or
/// malformed read as 0; the resource label is required.
pub open spec fn quota_of(h: RateLimitHeaders, limit: RateLimit) -> bool {
    let num = |v: Option<String>|
        match v {
            Some(s) => match parse_decimal(s@) {
                Some(x) => x,
                None => 0i64,
            },
            None => 0i64,
        };
    &&& (h.resource matches Some(res) && limit.resource == res)
    &&& limit.max == num(h.limit)
    &&& limit.remaining == num(h.remaining)
    &&& limit.used == num(h.used)
    &&& limit.reset_at == num(h.reset)
}

impl RateLimit {
    /// The quota that a response's quota headers report. Fails with a parse
    /// error when the resource label is missing.
    pub fn from_headers(headers: &RateLimitHeaders) -> (r: Result<RateLimit, AppError>)
        ensures
            r is Ok <==> headers.resource is Some,
            r matches Ok(limit) ==> quota_of(*headers, limit),
            r matches Err(e) ==> e is Parse,
    {
        let resource = match &headers.resource {
            Some(res) => res.clone(),
            None => {
                return Err(AppError::Parse("missing rate limit resource header".to_owned()));
            },
        };
        let max = match parse_header_num(&headers.limit) {
            Some(x) => x,
            None => 0,
        };
        let remaining = match parse_header_num(&headers.remaining) {
            Some(x) => x,
            None => 0,
        };
        let used = match parse_header_num(&headers.used) {
            Some(x) => x,
            None => 0,
        };
        let reset_at = match parse_header_num(&headers.reset) {
            Some(x) => x,
            None => 0,
        };
        Ok(RateLimit { max, remaining, used, reset_at, resource })
    }
}

/// Relies on chrono's `DateTime::from_timestamp` followed by `timestamp`:
/// an instant is built for every second within chrono's date range (years
/// -262143 to 262142, which holds every value of magnitude up to 8e12) and
/// reads back as the same second; out of range, there is none.
#[verifier::external_body]
fn reset_instant(secs: i64) -> (r: Option<i64>)
    ensures
        r matches Some(t) ==> t == secs,
        -8_000_000_000_000 <= secs <= 8_000_000_000_000 ==> r == Some(secs),
{
    chrono::DateTime::from_timestamp(secs, 0).map(|d| d.timestamp())
}

/// Whether a stored quota blocks calls at `now`, given the instant its
/// reset time converts to: only an exhausted budget whose reset lies in the
/// future blocks. A reset time outside the calendar's range is compared as
/// the raw second count.
pub fn is_exhausted(limit: &RateLimit, reset: Option<i64>, now: i64) -> (r: bool)
    ensures
        r == (limit.remaining <= 0 && match reset {
            Some(t) => t > now,
            None => limit.reset_at > now,
        }),
{
    let reset_at = match reset {
        Some(t) => t,
        None => limit.reset_at,
    };
    limit.remaining <= 0 && reset_at > now
}

/// Key of a quota row: platform and resource class.
pub open spec fn key_of(platform: Seq<char>, resource: Seq<char>) -> (Seq<char>, Seq<char>) {
    (platform, resource)
}

/// The quota store: one row per (platform, resource), each update
/// overwriting the row.
pub struct RateLimitStore {
    rows: Vec<(String, RateLimit)>,
    index: Ghost<Map<(Seq<char>, Seq<char>), RateLimit>>,
}

impl RateLimitStore {
    pub closed spec fn view(&self) -> Map<(Seq<char>, Seq<char>), RateLimit> {
        self.index@
    }

    pub closed spec fn wf(&self) -> bool {
        &&& forall|i: int, j: int|
            0 <= i < j < self.rows@.len() ==> key_of(self.rows@[i].0@, self.rows@[i].1.resource@)
                != key_of(self.rows@[j].0@, self.rows@[j].1.resource@)
        &&& forall|i: int|
            0 <= i < self.rows@.len() ==> #[trigger] self.index@.contains_key(
                key_of(self.rows@[i].0@, self.rows@[i].1.resource@),
            ) && self.index@[key_of(self.rows@[i].0@, self.rows@[i].1.resource@)] == self.rows@[i].1
        &&& forall|k: (Seq<char>, Seq<char>)|
            #[trigger] self.index@.contains_key(k) ==> exists|i: int|
                0 <= i < self.rows@.len() && key_of(self.rows@[i].0@, self.rows@[i].1.resource@) == k
    }

    /// A store with no quota recorded.
    pub fn new() -> (r: RateLimitStore)
        ensures
            r.wf(),
            r@ == Map::<(Seq<char>, Seq<char>), RateLimit>::empty(),
    {
        RateLimitStore { rows: Vec::new(), index: Ghost(Map::empty()) }
    }

    fn find(&self, platform: &String, resource: &String) -> (r: Option<usize>)
        requires
            self.wf(),
        ensures
            match r {
                Some(i) => i < self.rows@.len() && key_of(self.rows@[i as int].0@, self.rows@[i as int].1.resource@)
                    == key_of(platform@, resource@) && self@.contains_key(key_of(platform@, resource@)),
                None => !self@.contains_key(key_of(platform@, resource@)),
            },
    {
        let mut i: usize = 0;
        while i < self.rows.len()
            invariant
                self.wf(),
                0 <= i <= self.rows@.len(),
                forall|j: int|
                    0 <= j < i ==> key_of(self.rows@[j].0@, self.rows@[j].1.resource@) != key_of(
                        platform@,
                        resource@,
                    ),
            decreases self.rows@.len() - i,
        {
            if self.rows[i].0 == *platform && self.rows[i].1.resource == *resource {
                return Some(i);
            }
            i = i + 1;
        }
        None
    }

    /// The quota recorded for (platform, resource), if any.
    pub fn get(&self, platform: &str, resource: &str) -> (r: Option<&RateLimit>)
        requires
            self.wf(),
        ensures
            match r {
                Some(l) => self@.contains_key(key_of(platform@, resource@)) && *l == self@[key_of(
                    platform@,
                    resource@,
                )],
                None => !self@.contains_key(key_of(platform@, resource@)),
            },
    {
        let p = platform.to_owned();
        let res = resource.to_owned();
        match self.find(&p, &res) {
            Some(i) => Some(&self.rows[i].1),
            None => None,
        }
    }

    /// Records `limit` as the quota of (platform, `limit.resource`),
    /// replacing any earlier row for that key.
    pub fn upsert(&mut self, platform: &str, limit: RateLimit)
        requires
            old(self).wf(),
        ensures
            final(self).wf(),
            final(self)@ == old(self)@.insert(key_of(platform@, limit.resource@), limit),
    {
        let p = platform.to_owned();
        let ghost key = key_of(platform@, limit.resource@);
        let ghost old_rows = self.rows@;
        let ghost lim = limit;
        match self.find(&p, &limit.resource) {
            Some(i) => {
                self.rows.set(i, (p, limit));
                self.index = Ghost(self.index@.insert(key, lim));
                assert forall|a: int, b: int| 0 <= a < b < self.rows@.len() implies key_of(
                    self.rows@[a].0@,
                    self.rows@[a].1.resource@,
                ) != key_of(self.rows@[b].0@, self.rows@[b].1.resource@) by {
                    assert(key_of(old_rows[a].0@, old_rows[a].1.resource@) != key_of(
                        old_rows[b].0@,
                        old_rows[b].1.resource@,
                    ));
                }
                assert forall|j: int| 0 <= j < self.rows@.len() implies #[trigger] self.index@.contains_key(
                    key_of(self.rows@[j].0@, self.rows@[j].1.resource@),
                ) && self.index@[key_of(self.rows@[j].0@, self.rows@[j].1.resource@)] == self.rows@[j].1 by {
                    if j != i {
                        assert(key_of(old_rows[j].0@, old_rows[j].1.resource@) != key_of(
                            old_rows[i as int].0@,
                            old_rows[i as int].1.resource@,
                        ));
                        assert(old(self).index@.contains_key(key_of(old_rows[j].0@, old_rows[j].1.resource@)));
                    }
                }
                assert forall|k: (Seq<char>, Seq<char>)| #[trigger] self.index@.contains_key(k) implies exists|j: int|
                    0 <= j < self.rows@.len() && key_of(self.rows@[j].0@, self.rows@[j].1.resource@) == k by {
                    if k != key {
                        let j = choose|j: int|
                            0 <= j < old_rows.len() && key_of(old_rows[j].0@, old_rows[j].1.resource@) == k;
                        assert(key_of(self.rows@[j].0@, self.rows@[j].1.resource@) == k);
                    } else {
                        assert(key_of(self.rows@[i as int].0@, self.rows@[i as int].1.resource@) == k);
                    }
                }
            },
            None => {
                self.rows.push((p, limit));
                self.index = Ghost(self.index@.insert(key, lim));
                assert forall|a: int, b: int| 0 <= a < b < self.rows@.len() implies key_of(
                    self.rows@[a].0@,
                    self.rows@[a].1.resource@,
                ) != key_of(self.rows@[b].0@, self.rows@[b].1.resource@) by {
                    if b < old_rows.len() {
                        assert(key_of(old_rows[a].0@, old_rows[a].1.resource@) != key_of(
                            old_rows[b].0@,
                            old_rows[b].1.resource@,
                        ));
                    } else {
                        assert(old(self).index@.contains_key(key_of(old_rows[a].0@, old_rows[a].1.resource@)));
                    }
                }
                assert forall|j: int| 0 <= j < self.rows@.len() implies #[trigger] self.index@.contains_key(
                    key_of(self.rows@[j].0@, self.rows@[j].1.resource@),
                ) && self.index@[key_of(self.rows@[j].0@, self.rows@[j].1.resource@)] == self.rows@[j].1 by {
                    if j < old_rows.len() {
                        assert(old(self).index@.contains_key(key_of(old_rows[j].0@, old_rows[j].1.resource@)));
                    }
                }
                assert forall|k: (Seq<char>, Seq<char>)| #[trigger] self.index@.contains_key(k) implies exists|j: int|
                    0 <= j < self.rows@.len() && key_of(self.rows@[j].0@, self.rows@[j].1.resource@) == k by {
                    if k != key {
                        let j = choose|j: int|
                            0 <= j < old_rows.len() && key_of(old_rows[j].0@, old_rows[j].1.resource@) == k;
                        assert(key_of(self.rows@[j].0@, self.rows@[j].1.resource@) == k);
                    } else {
                        let n = old_rows.len() as int;
                        assert(key_of(self.rows@[n].0@, self.rows@[n].1.resource@) == k);
                    }
                }
            },
        }
    }

    /// Applies a response's quota headers to the store: the reported quota
    /// overwrites the row of its (platform, resource). Fails, leaving the
    /// store unchanged, when the headers carry no resource label.
    pub fn update(&mut self, platform: &str, headers: &RateLimitHeaders) -> (r: Result<(), AppError>)
        requires
            old(self).wf(),
        ensures
            final(self).wf(),
            r is Ok <==> headers.resource is Some,
            r is Ok ==> exists|limit: RateLimit|
                quota_of(*headers, limit) && final(self)@ == old(self)@.insert(
                    key_of(platform@, limit.resource@),
                    limit,
                ),
            r matches Err(e) ==> e is Parse && final(self)@ == old(self)@,
    {
        match RateLimit::from_headers(headers) {
            Ok(limit) => {
                let ghost l = limit;
                self.upsert(platform, limit);
                assert(quota_of(*headers, l));
                Ok(())
            },
            Err(e) => Err(e),
        }
    }

    /// Decides whether a call on (platform, resource) may proceed at `now`:
    /// it fails with `RateLimited` when the recorded budget is exhausted and
    /// its reset time is still in the future; it succeeds when no quota was
    /// recorded yet.
    pub fn check_at(&self, platform: &str, resource: &str, now: i64) -> (r: Result<(), AppError>)
        requires
            self.wf(),
        ensures
            r is Err <==> self@.contains_key(key_of(platform@, resource@))
                && self@[key_of(platform@, resource@)].remaining <= 0
                && self@[key_of(platform@, resource@)].reset_at > now,
            r matches Err(e) ==> (e matches AppError::RateLimited(m) && m@ == resource@),
    {
        match self.get(platform, resource) {
            None => Ok(()),
            Some(limit) => {
                let reset = reset_instant(limit.reset_at);
                if is_exhausted(limit, reset, now) {
                    Err(AppError::RateLimited(resource.to_owned()))
                } else {
                    Ok(())
                }
            },
        }
    }
}

} // verus!
