//! The cache key: a city, the request parameters and a time bucket.
use vstd::prelude::*;

verus! {

/// Language in which the upstream service is asked to answer.
#[derive(Debug, Clone, Copy, PartialEq, Eq, Structural, Hash)]
pub enum WeatherLang {
    En,
    Ru,
}

/// Which of the upstream service's endpoints a request goes to.
#[derive(Debug, Clone, Copy, PartialEq, Eq, Structural, Hash)]
pub enum WeatherApiType {
    Current,
}

/// Unit system of the numbers in an answer.
#[derive(Debug, Clone, Copy, PartialEq, Eq, Structural, Hash)]
pub enum WeatherUnits {
    Metric,
}

/// The mathematical value of a [`CacheKey`]: two keys are the same key
/// exactly when their views are equal.
pub struct KeyView {
    pub city: Seq<char>,
    pub api_type: WeatherApiType,
    pub units: WeatherUnits,
    pub lang: WeatherLang,
    pub bucket_ts: u64,
}

/// Identifies one cacheable query.
///
/// `city` is taken as it is: normalising case or whitespace is the caller's
/// business. `bucket_ts` is a coarsened timestamp in seconds, not the raw
/// time of the request (see [`bucket_timestamp`]).
#[derive(Debug, Clone, Hash)]
pub struct CacheKey {
    pub city: String,
    pub api_type: WeatherApiType,
    pub units: WeatherUnits,
    pub lang: WeatherLang,
    pub bucket_ts: u64,
}

impl View for CacheKey {
    type V = KeyView;

    open spec fn view(&self) -> KeyView {
        KeyView {
            city: self.city@,
            api_type: self.api_type,
            units: self.units,
            lang: self.lang,
            bucket_ts: self.bucket_ts,
        }
    }
}

impl PartialEq for CacheKey {
    fn eq(&self, o: &CacheKey) -> (r: bool)
        ensures
            r == (self@ == o@),
    {
        self.city == o.city && self.api_type == o.api_type && self.units == o.units
            && self.lang == o.lang && self.bucket_ts == o.bucket_ts
    }
}

impl vstd::std_specs::cmp::PartialEqSpecImpl for CacheKey {
    open spec fn obeys_eq_spec() -> bool {
        true
    }

    open spec fn eq_spec(&self, o: &CacheKey) -> bool {
        self@ == o@
    }
}

impl Eq for CacheKey {}

/// The start of the bucket of width `width` that holds `ts`.
pub open spec fn bucket_of(ts: u64, width: u64) -> int
    recommends
        width > 0,
{
    (ts as int / width as int) * width as int
}

/// Coarsens a raw timestamp into the start of its bucket:
/// `floor(ts / width) * width`.
pub fn bucket_timestamp(ts: u64, width: u64) -> (r: u64)
    requires
        width > 0,
    ensures
        r == bucket_of(ts, width),
        r <= ts,
        ts - r < width,
{
    proof {
        assert(ts as int == (ts as int / width as int) * width as int + ts as int % width as int
            && (ts as int / width as int) * width as int >= 0 && (ts as int % width as int)
            < (width as int)) by (nonlinear_arith)
            requires
                width > 0,
        ;
    }
    ts - ts % width
}

impl CacheKey {
    /// Builds the key of a request made at the raw time `ts` (seconds),
    /// bucketing that time into buckets of `width` seconds.
    pub fn new(
        city: String,
        api_type: WeatherApiType,
        units: WeatherUnits,
        lang: WeatherLang,
        ts: u64,
        width: u64,
    ) -> (r: CacheKey)
        requires
            width > 0,
        ensures
            r@ == (KeyView { city: city@, api_type, units, lang, bucket_ts: r.bucket_ts }),
            r.bucket_ts == bucket_of(ts, width),
            r.bucket_ts <= ts,
            ts - r.bucket_ts < width,
    {
        let bucket_ts = bucket_timestamp(ts, width);
        CacheKey { city, api_type, units, lang, bucket_ts }
    }
}

/// The decimal digit `d` (below ten) as a character.
pub open spec fn digit_char(d: nat) -> char {
    seq!['0', '1', '2', '3', '4', '5', '6', '7', '8', '9'][d as int]
}

/// The decimal notation of `n`, without leading zeros.
pub open spec fn decimal(n: nat) -> Seq<char>
    decreases n,
{
    if n < 10 {
        seq![digit_char(n)]
    } else {
        decimal(n / 10) + seq![digit_char(n % 10)]
    }
}

/// Appends the digit `d` to `s`.
fn append_digit(s: &mut String, d: u64)
    requires
        d < 10,
    ensures
        final(s)@ == old(s)@ + seq![digit_char(d as nat)],
{
    let lit = match d {
        0 => "0",
        1 => "1",
        2 => "2",
        3 => "3",
        4 => "4",
        5 => "5",
        6 => "6",
        7 => "7",
        8 => "8",
        _ => "9",
    };
    proof {
        reveal_strlit("0");
        reveal_strlit("1");
        reveal_strlit("2");
        reveal_strlit("3");
        reveal_strlit("4");
        reveal_strlit("5");
        reveal_strlit("6");
        reveal_strlit("7");
        reveal_strlit("8");
        reveal_strlit("9");
        assert(lit@ =~= seq![digit_char(d as nat)]);
    }
    s.append(lit);
}

/// Appends the decimal notation of `n` to `s`.
fn append_decimal(s: &mut String, n: u64)
    ensures
        final(s)@ == old(s)@ + decimal(n as nat),
    decreases n,
{
    let ghost s0 = s@;
    if n >= 10 {
        append_decimal(s, n / 10);
        append_digit(s, n % 10);
        proof {
            assert(s@ =~= s0 + decimal(n as nat));
        }
    } else {
        append_digit(s, n);
    }
}

impl WeatherLang {
    /// The language's code as the upstream service spells it.
    pub open spec fn code(self) -> Seq<char> {
        match self {
            WeatherLang::En => seq!['e', 'n'],
            WeatherLang::Ru => seq!['r', 'u'],
        }
    }

    /// The language's code: `en` or `ru`.
    pub fn to_string(&self) -> (r: String)
        ensures
            r@ == self.code(),
    {
        proof {
            reveal_strlit("en");
            reveal_strlit("ru");
        }
        match self {
            WeatherLang::En => "en".to_owned(),
            WeatherLang::Ru => "ru".to_owned(),
        }
    }
}

impl WeatherApiType {
    /// The endpoint's name.
    pub open spec fn code(self) -> Seq<char> {
        match self {
            WeatherApiType::Current => seq!['c', 'u', 'r', 'r', 'e', 'n', 't'],
        }
    }

    /// The endpoint's name: `current`.
    pub fn to_string(&self) -> (r: String)
        ensures
            r@ == self.code(),
    {
        proof {
            reveal_strlit("current");
        }
        match self {
            WeatherApiType::Current => "current".to_owned(),
        }
    }
}

impl WeatherUnits {
    /// The unit system's name.
    pub open spec fn code(self) -> Seq<char> {
        match self {
            WeatherUnits::Metric => seq!['m', 'e', 't', 'r', 'i', 'c'],
        }
    }

    /// The unit system's name: `metric`.
    pub fn to_string(&self) -> (r: String)
        ensures
            r@ == self.code(),
    {
        proof {
            reveal_strlit("metric");
        }
        match self {
            WeatherUnits::Metric => "metric".to_owned(),
        }
    }
}

/// The text form of a key: its five fields joined by `-`, the bucket in
/// decimal.
pub open spec fn key_text(k: KeyView) -> Seq<char> {
    k.city + seq!['-'] + k.api_type.code() + seq!['-'] + k.units.code() + seq!['-']
        + k.lang.code() + seq!['-'] + decimal(k.bucket_ts as nat)
}

impl CacheKey {
    /// The key as text, e.g. `moscow-current-metric-en-7200`.
    pub fn to_string(&self) -> (r: String)
        ensures
            r@ == key_text(self@),
    {
        proof {
            reveal_strlit("-");
        }
        let mut s = self.city.clone();
        s.append("-");
        s.append(self.api_type.to_string().as_str());
        s.append("-");
        s.append(self.units.to_string().as_str());
        s.append("-");
        s.append(self.lang.to_string().as_str());
        s.append("-");
        append_decimal(&mut s, self.bucket_ts);
        proof {
            assert(s@ =~= key_text(self@));
        }
        s
    }
}

} // verus!
