//! Turning a forecast from the weather API into a [`Weather`] snapshot.
//!
//! The API answers with parallel arrays; the snapshot keeps the first
//! `HOURLIES` hourly entries that lie after the current instant and the first
//! `DAILIES` daily entries that start at or after the beginning of the
//! current local day.
use crate::clock::{
    is_clock_reading, is_local_midnight, is_timezone_lookup, lemma_clock_reading,
    lemma_timezone_lookup, local_day_start_timestamp, local_now_timestamp, system_timezone,
};
use crate::weather::{CurrentWeather, DailyWeather, HourlyWeather, Weather, DAILIES, HOURLIES};
use vstd::prelude::*;
use vstd::std_specs::convert::FromSpec;
use vstd::utf8::{decode_utf8, valid_utf8};

verus! {

/// Why a forecast could not be fetched or turned into a snapshot.
#[derive(Debug)]
pub enum ForecastError {
    /// Fewer than `HOURLIES` hourly entries lie after the current instant.
    NotEnoughHourly,
    /// Fewer than `DAILIES` daily entries start at or after the beginning of
    /// the current local day.
    NotEnoughDaily,
    /// Local midnight of the current day does not exist in the local time
    /// zone.
    DayStartUnknown,
    /// The machine's time zone could not be determined; the lookup's error.
    Timezone(iana_time_zone::GetTimezoneError),
    /// The response body is not UTF-8.
    NonUtf8 { status: u16, bytes: Vec<u8> },
    /// The API answered with a status other than 200.
    BadStatus { status: u16, body: String },
}

/// The `current` part of a forecast.
#[derive(Debug)]
pub struct CurrentResponse {
    /// Temperature in °C, as the bits of an `f32`.
    pub temperature_2m_bits: u32,
    pub weather_code: u8,
}

/// The `hourly` part of a forecast: parallel arrays, one entry per hour.
#[derive(Debug)]
pub struct HourlyResponse {
    pub time: Vec<i64>,
    /// Temperatures in °C, as the bits of `f32` values.
    pub temperature_2m_bits: Vec<u32>,
    pub weather_code: Vec<u8>,
}

/// The `daily` part of a forecast: parallel arrays, one entry per day.
#[derive(Debug)]
pub struct DailyResponse {
    pub time: Vec<i64>,
    /// Lowest temperatures in °C, as the bits of `f32` values.
    pub temperature_2m_min_bits: Vec<u32>,
    /// Highest temperatures in °C, as the bits of `f32` values.
    pub temperature_2m_max_bits: Vec<u32>,
    pub weather_code: Vec<u8>,
}

/// A full forecast as the API returns it.
#[derive(Debug)]
pub struct FullResponse {
    pub current: CurrentResponse,
    pub hourly: HourlyResponse,
    pub daily: DailyResponse,
}

pub open spec fn min_len(a: nat, b: nat) -> nat {
    if a <= b {
        a
    } else {
        b
    }
}

/// Whether an hourly entry lies strictly after `now`.
pub open spec fn is_after(now: i64) -> spec_fn(HourlyWeather) -> bool {
    |h: HourlyWeather| h.time > now
}

/// Whether a daily entry starts at or after `day_start`.
pub open spec fn is_from(day_start: i64) -> spec_fn(DailyWeather) -> bool {
    |d: DailyWeather| d.time >= day_start
}

impl From<CurrentResponse> for CurrentWeather {
    fn from(res: CurrentResponse) -> (w: Self)
        ensures
            w.t_bits == res.temperature_2m_bits,
            w.code == res.weather_code,
    {
        CurrentWeather { t_bits: res.temperature_2m_bits, code: res.weather_code }
    }
}

impl vstd::std_specs::convert::FromSpecImpl<CurrentResponse> for CurrentWeather {
    open spec fn obeys_from_spec() -> bool {
        true
    }

    open spec fn from_spec(res: CurrentResponse) -> Self {
        CurrentWeather { t_bits: res.temperature_2m_bits, code: res.weather_code }
    }
}

impl HourlyResponse {
    /// The entries, zipped: as many as the shortest of the three arrays.
    pub open spec fn entries(self) -> Seq<HourlyWeather> {
        Seq::new(
            min_len(self.time@.len(), min_len(self.temperature_2m_bits@.len(), self.weather_code@.len())),
            |i: int|
                HourlyWeather {
                    time: self.time@[i],
                    t_bits: self.temperature_2m_bits@[i],
                    code: self.weather_code@[i],
                },
        )
    }

    /// The entries after `now`, in order.
    pub open spec fn upcoming(self, now: i64) -> Seq<HourlyWeather> {
        self.entries().filter(is_after(now))
    }

    /// Whether `r` is what [`Self::select`] gives at `now`: the first
    /// `HOURLIES` upcoming entries, or an error where there are fewer.
    pub open spec fn selects(self, now: i64, r: Result<[HourlyWeather; HOURLIES], ForecastError>) -> bool {
        let up = self.upcoming(now);
        match r {
            Ok(a) => up.len() >= HOURLIES && a@ == up.take(HOURLIES as int),
            Err(e) => up.len() < HOURLIES && e is NotEnoughHourly,
        }
    }

    /// The first `HOURLIES` entries that lie strictly after `now`.
    pub fn select(&self, now: i64) -> (r: Result<[HourlyWeather; HOURLIES], ForecastError>)
        ensures
            self.selects(now, r),
    {
        let ghost entries = self.entries();
        let ghost p = is_after(now);
        let mut n = self.time.len();
        if self.temperature_2m_bits.len() < n {
            n = self.temperature_2m_bits.len();
        }
        if self.weather_code.len() < n {
            n = self.weather_code.len();
        }
        let mut out: Vec<HourlyWeather> = Vec::new();
        assert(entries.take(0).filter(p) =~= Seq::<HourlyWeather>::empty()) by {
            reveal_with_fuel(Seq::filter, 1);
        }
        for i in 0..n
            invariant
                entries == self.entries(),
                p == is_after(now),
                n == entries.len(),
                out@.len() == min_len(entries.take(i as int).filter(p).len(), HOURLIES as nat),
                out@ == entries.take(i as int).filter(p).take(out@.len() as int),
        {
            let h = HourlyWeather {
                time: self.time[i],
                t_bits: self.temperature_2m_bits[i],
                code: self.weather_code[i],
            };
            let ghost before = entries.take(i as int).filter(p);
            assert(entries.take(i + 1) =~= entries.take(i as int).push(h));
            proof {
                entries.take(i as int).lemma_filter_push(h, p);
            }
            assert(p(h) == (h.time > now));
            assert(entries.take(i + 1).filter(p) == if p(h) {
                before.push(h)
            } else {
                before
            });
            if h.time > now && out.len() < HOURLIES {
                out.push(h);
                assert(out@ =~= before.push(h));
                assert(before.push(h).take(out@.len() as int) =~= before.push(h));
            } else if h.time > now {
                assert(before.push(h).take(out@.len() as int) =~= before.take(out@.len() as int));
            }
        }
        assert(entries.take(n as int) =~= entries);
        if out.len() == HOURLIES {
            Ok(hourly_array(&out))
        } else {
            Err(ForecastError::NotEnoughHourly)
        }
    }
}

impl DailyResponse {
    /// The entries, zipped: as many as the shortest of the four arrays.
    pub open spec fn entries(self) -> Seq<DailyWeather> {
        Seq::new(
            min_len(
                min_len(self.time@.len(), self.temperature_2m_min_bits@.len()),
                min_len(self.temperature_2m_max_bits@.len(), self.weather_code@.len()),
            ),
            |i: int|
                DailyWeather {
                    time: self.time@[i],
                    t_min_bits: self.temperature_2m_min_bits@[i],
                    t_max_bits: self.temperature_2m_max_bits@[i],
                    code: self.weather_code@[i],
                },
        )
    }

    /// The entries that start at or after `day_start`, in order.
    pub open spec fn from_day(self, day_start: i64) -> Seq<DailyWeather> {
        self.entries().filter(is_from(day_start))
    }

    /// Whether `r` is what [`Self::select`] gives for `day_start`.
    pub open spec fn selects(self, day_start: i64, r: Result<[DailyWeather; DAILIES], ForecastError>) -> bool {
        let days = self.from_day(day_start);
        match r {
            Ok(a) => days.len() >= DAILIES && a@ == days.take(DAILIES as int),
            Err(e) => days.len() < DAILIES && e is NotEnoughDaily,
        }
    }

    /// The first `DAILIES` entries that start at or after `day_start`.
    pub fn select(&self, day_start: i64) -> (r: Result<[DailyWeather; DAILIES], ForecastError>)
        ensures
            self.selects(day_start, r),
    {
        let ghost entries = self.entries();
        let ghost p = is_from(day_start);
        let mut n = self.time.len();
        if self.temperature_2m_min_bits.len() < n {
            n = self.temperature_2m_min_bits.len();
        }
        if self.temperature_2m_max_bits.len() < n {
            n = self.temperature_2m_max_bits.len();
        }
        if self.weather_code.len() < n {
            n = self.weather_code.len();
        }
        let mut out: Vec<DailyWeather> = Vec::new();
        assert(entries.take(0).filter(p) =~= Seq::<DailyWeather>::empty()) by {
            reveal_with_fuel(Seq::filter, 1);
        }
        for i in 0..n
            invariant
                entries == self.entries(),
                p == is_from(day_start),
                n == entries.len(),
                out@.len() == min_len(entries.take(i as int).filter(p).len(), DAILIES as nat),
                out@ == entries.take(i as int).filter(p).take(out@.len() as int),
        {
            let d = DailyWeather {
                time: self.time[i],
                t_min_bits: self.temperature_2m_min_bits[i],
                t_max_bits: self.temperature_2m_max_bits[i],
                code: self.weather_code[i],
            };
            let ghost before = entries.take(i as int).filter(p);
            assert(entries.take(i + 1) =~= entries.take(i as int).push(d));
            proof {
                entries.take(i as int).lemma_filter_push(d, p);
            }
            assert(p(d) == (d.time >= day_start));
            assert(entries.take(i + 1).filter(p) == if p(d) {
                before.push(d)
            } else {
                before
            });
            if d.time >= day_start && out.len() < DAILIES {
                out.push(d);
                assert(out@ =~= before.push(d));
                assert(before.push(d).take(out@.len() as int) =~= before.push(d));
            } else if d.time >= day_start {
                assert(before.push(d).take(out@.len() as int) =~= before.take(out@.len() as int));
            }
        }
        assert(entries.take(n as int) =~= entries);
        if out.len() == DAILIES {
            Ok(daily_array(&out))
        } else {
            Err(ForecastError::NotEnoughDaily)
        }
    }
}

fn hourly_array(v: &Vec<HourlyWeather>) -> (a: [HourlyWeather; HOURLIES])
    requires
        v@.len() == HOURLIES,
    ensures
        a@ == v@,
{
    let mut a = [HourlyWeather { time: 0, t_bits: 0, code: 0 };HOURLIES];
    for k in 0..HOURLIES
        invariant
            v@.len() == HOURLIES,
            forall|j: int| 0 <= j < k ==> a@[j] == v@[j],
    {
        a[k] = v[k];
    }
    assert(a@ =~= v@);
    a
}

fn daily_array(v: &Vec<DailyWeather>) -> (a: [DailyWeather; DAILIES])
    requires
        v@.len() == DAILIES,
    ensures
        a@ == v@,
{
    let mut a = [DailyWeather { time: 0, t_min_bits: 0, t_max_bits: 0, code: 0 };DAILIES];
    for k in 0..DAILIES
        invariant
            v@.len() == DAILIES,
            forall|j: int| 0 <= j < k ==> a@[j] == v@[j],
    {
        a[k] = v[k];
    }
    assert(a@ =~= v@);
    a
}

impl Weather {
    /// Whether `r` is the snapshot of `res` at the instant `now`, with
    /// `day_start` the first instant of the current local day (`None` where
    /// it does not exist).
    pub open spec fn built_from(
        res: FullResponse,
        now: i64,
        day_start: Option<i64>,
        r: Result<Weather, ForecastError>,
    ) -> bool {
        let up = res.hourly.upcoming(now);
        if up.len() < HOURLIES {
            r matches Err(e) && e is NotEnoughHourly
        } else {
            match day_start {
                None => r matches Err(e) && e is DayStartUnknown,
                Some(start) => {
                    let days = res.daily.from_day(start);
                    if days.len() < DAILIES {
                        r matches Err(e) && e is NotEnoughDaily
                    } else {
                        r matches Ok(w) && w.current == CurrentWeather::from_spec(res.current)
                            && w.hourly@ == up.take(HOURLIES as int) && w.daily@ == days.take(
                            DAILIES as int,
                        )
                    }
                },
            }
        }
    }

    /// The snapshot of `res` at the instant `now`, with `day_start` the first
    /// instant of the current local day.
    pub fn from_response_at(res: FullResponse, now: i64, day_start: Option<i64>) -> (r: Result<
        Weather,
        ForecastError,
    >)
        ensures
            Self::built_from(res, now, day_start, r),
    {
        let hourly = match res.hourly.select(now) {
            Ok(a) => a,
            Err(e) => {
                return Err(e);
            },
        };
        let start = match day_start {
            Some(s) => s,
            None => {
                return Err(ForecastError::DayStartUnknown);
            },
        };
        let daily = match res.daily.select(start) {
            Ok(a) => a,
            Err(e) => {
                return Err(e);
            },
        };
        let current = CurrentWeather::from(res.current);
        Ok(Weather { current, hourly, daily })
    }

    /// The snapshot of `res` at the current instant, read from the local
    /// clock.
    pub fn try_from_response(res: FullResponse) -> (r: Result<Weather, ForecastError>)
        ensures
            exists|now: i64, day_start: Option<i64>| Self::built_from(res, now, day_start, r),
            exists|now: i64, day_start: Option<i64>|
                {
                    &&& is_clock_reading(now)
                    &&& is_local_midnight(day_start)
                    &&& Self::built_from(res, now, day_start, r)
                },
    {
        let now = local_now_timestamp();
        proof {
            lemma_clock_reading(now);
        }
        let day_start = local_day_start_timestamp();
        Self::from_response_at(res, now, day_start)
    }
}

/// Every hourly record of a snapshot lies strictly after the instant it was
/// built at, and every daily record starts at or after the start of the day.
pub proof fn theorem_snapshot_is_upcoming(
    res: FullResponse,
    now: i64,
    day_start: i64,
    w: Weather,
)
    requires
        Weather::built_from(res, now, Some(day_start), Ok(w)),
    ensures
        forall|i: int| 0 <= i < HOURLIES ==> #[trigger] w.hourly[i].time > now,
        forall|i: int| 0 <= i < DAILIES ==> #[trigger] w.daily[i].time >= day_start,
{
    let up = res.hourly.upcoming(now);
    let days = res.daily.from_day(day_start);
    assert forall|i: int| 0 <= i < HOURLIES implies #[trigger] w.hourly[i].time > now by {
        res.hourly.entries().lemma_filter_pred(is_after(now), i);
        assert(w.hourly@[i] == up[i]);
    }
    assert forall|i: int| 0 <= i < DAILIES implies #[trigger] w.daily[i].time >= day_start by {
        res.daily.entries().lemma_filter_pred(is_from(day_start), i);
        assert(w.daily@[i] == days[i]);
    }
}

proof fn lemma_filter_first<A>(s: Seq<A>, p: spec_fn(A) -> bool)
    requires
        s.filter(p).len() > 0,
    ensures
        exists|j: int|
            0 <= j < s.len() && s[j] == s.filter(p)[0] && p(s[j]) && forall|k: int|
                0 <= k < j ==> !p(#[trigger] s[k]),
    decreases s.len(),
{
    if s.len() == 0 {
        assert(s.filter(p) =~= s) by {
            reveal_with_fuel(Seq::filter, 1);
        }
    } else {
        let q = s.drop_last();
        let x = s.last();
        assert(s =~= q.push(x));
        q.lemma_filter_push(x, p);
        if q.filter(p).len() > 0 {
            lemma_filter_first(q, p);
            let j = choose|j: int|
                0 <= j < q.len() && q[j] == q.filter(p)[0] && p(q[j]) && forall|k: int|
                    0 <= k < j ==> !p(#[trigger] q[k]);
            assert(s[j] == q[j]);
            assert(forall|k: int| 0 <= k < j ==> s[k] == q[k]);
        } else {
            assert forall|k: int| 0 <= k < q.len() implies !p(#[trigger] q[k]) by {
                if p(q[k]) {
                    q.lemma_filter_contains(p, k);
                }
            }
            let j = s.len() - 1;
            assert(s[j] == x);
            assert(forall|k: int| 0 <= k < j ==> s[k] == q[k]);
        }
    }
}

/// The current record of a snapshot carries the answer's current
/// temperature bits and weather code unchanged.
pub proof fn theorem_current_from_response(res: FullResponse, now: i64, day_start: Option<i64>, w: Weather)
    requires
        Weather::built_from(res, now, day_start, Ok(w)),
    ensures
        w.current.t_bits == res.current.temperature_2m_bits,
        w.current.code == res.current.weather_code,
{
}

/// The hourly records of a snapshot built at `now`: each lies strictly after
/// `now`, and the first is the earliest-listed entry of the answer that
/// does (every entry listed before it is at or before `now`).
pub proof fn theorem_hourly_from_now(res: FullResponse, now: i64, day_start: Option<i64>, w: Weather)
    requires
        Weather::built_from(res, now, day_start, Ok(w)),
    ensures
        forall|i: int| 0 <= i < HOURLIES ==> #[trigger] w.hourly[i].time > now,
        exists|j: int|
            0 <= j < res.hourly.entries().len() && res.hourly.entries()[j] == w.hourly[0]
                && forall|k: int| 0 <= k < j ==> (#[trigger] res.hourly.entries()[k]).time <= now,
{
    let e = res.hourly.entries();
    let p = is_after(now);
    assert forall|i: int| 0 <= i < HOURLIES implies #[trigger] w.hourly[i].time > now by {
        e.lemma_filter_pred(p, i);
        assert(w.hourly@[i] == e.filter(p)[i]);
    }
    lemma_filter_first(e, p);
    assert(w.hourly@[0] == e.filter(p)[0]);
}

/// The daily records of a snapshot built with the day start `day_start`:
/// each starts at or after it, and the first is the earliest-listed entry of
/// the answer that does (every entry listed before it starts before
/// `day_start`). With the day start that [`Weather::try_from_response`]
/// reads (local midnight), today's entry is the first record.
pub proof fn theorem_daily_from_day_start(res: FullResponse, now: i64, day_start: i64, w: Weather)
    requires
        Weather::built_from(res, now, Some(day_start), Ok(w)),
    ensures
        forall|i: int| 0 <= i < DAILIES ==> #[trigger] w.daily[i].time >= day_start,
        exists|j: int|
            0 <= j < res.daily.entries().len() && res.daily.entries()[j] == w.daily[0]
                && forall|k: int|
                0 <= k < j ==> (#[trigger] res.daily.entries()[k]).time < day_start,
{
    let e = res.daily.entries();
    let p = is_from(day_start);
    assert forall|i: int| 0 <= i < DAILIES implies #[trigger] w.daily[i].time >= day_start by {
        e.lemma_filter_pred(p, i);
        assert(w.daily@[i] == e.filter(p)[i]);
    }
    lemma_filter_first(e, p);
    assert(w.daily@[0] == e.filter(p)[0]);
}

/// A query built with a time zone that was found asks for the position
/// given and for times in that zone: `latitude` and `longitude` are `lat` and
/// `lng`, and `timezone` is `tz`.
pub proof fn theorem_query_in_found_zone(
    lat: Seq<char>,
    lng: Seq<char>,
    tz: String,
    r: Result<Vec<(String, String)>, ForecastError>,
)
    requires
        query_for(lat, lng, Ok(tz), r),
    ensures
        r is Ok,
        r matches Ok(q) ==> q@.len() == 7 && q@[0].0@ == "latitude"@ && q@[0].1@ == lat
            && q@[1].0@ == "longitude"@ && q@[1].1@ == lng && q@[5].0@ == "timezone"@ && q@[5].1@
            == tz@,
{
    if let Ok(q) = r {
        assert(pairs_view(q@).len() == 7);
        assert(pairs_view(q@)[0] == (q@[0].0@, q@[0].1@));
        assert(pairs_view(q@)[1] == (q@[1].0@, q@[1].1@));
        assert(pairs_view(q@)[5] == (q@[5].0@, q@[5].1@));
    }
}

/// A failed time-zone lookup gives the lookup's own error.
pub proof fn theorem_query_keeps_lookup_error(
    lat: Seq<char>,
    lng: Seq<char>,
    e: iana_time_zone::GetTimezoneError,
    r: Result<Vec<(String, String)>, ForecastError>,
)
    requires
        query_for(lat, lng, Err(e), r),
    ensures
        r matches Err(ForecastError::Timezone(cause)) && cause == e,
{
}

/// The query parameters of a forecast request, as character sequences.
pub open spec fn forecast_params(lat: Seq<char>, lng: Seq<char>, tz: Seq<char>) -> Seq<
    (Seq<char>, Seq<char>),
> {
    seq![
        ("latitude"@, lat),
        ("longitude"@, lng),
        ("current"@, "temperature_2m,weather_code"@),
        ("hourly"@, "temperature_2m,weather_code"@),
        ("daily"@, "temperature_2m_min,temperature_2m_max,weather_code"@),
        ("timezone"@, tz),
        ("timeformat"@, "unixtime"@),
    ]
}

/// The character sequences of a list of string pairs.
pub open spec fn pairs_view(v: Seq<(String, String)>) -> Seq<(Seq<char>, Seq<char>)> {
    v.map_values(|p: (String, String)| (p.0@, p.1@))
}

fn pair(key: &str, value: &str) -> (p: (String, String))
    ensures
        p.0@ == key@,
        p.1@ == value@,
{
    (key.to_owned(), value.to_owned())
}

/// The query parameters of a forecast for the place at `lat`, `lng` (decimal
/// degrees as text), with times given in time zone `tz`.
pub fn forecast_query_in(lat: &str, lng: &str, tz: &str) -> (q: Vec<(String, String)>)
    ensures
        pairs_view(q@) == forecast_params(lat@, lng@, tz@),
{
    let mut q: Vec<(String, String)> = Vec::new();
    q.push(pair("latitude", lat));
    q.push(pair("longitude", lng));
    q.push(pair("current", "temperature_2m,weather_code"));
    q.push(pair("hourly", "temperature_2m,weather_code"));
    q.push(pair("daily", "temperature_2m_min,temperature_2m_max,weather_code"));
    q.push(pair("timezone", tz));
    q.push(pair("timeformat", "unixtime"));
    assert(pairs_view(q@) =~= forecast_params(lat@, lng@, tz@));
    q
}

/// Whether `r` is the query for the place at `lat`, `lng` given the outcome
/// `zone` of the time-zone lookup: the parameters in that zone, or the
/// lookup's error.
pub open spec fn query_for(
    lat: Seq<char>,
    lng: Seq<char>,
    zone: Result<String, iana_time_zone::GetTimezoneError>,
    r: Result<Vec<(String, String)>, ForecastError>,
) -> bool {
    match zone {
        Ok(tz) => r matches Ok(q) && pairs_view(q@) == forecast_params(lat, lng, tz@),
        Err(e) => r matches Err(ForecastError::Timezone(cause)) && cause == e,
    }
}

/// The query parameters of a forecast for the place at `lat`, `lng`, given
/// the outcome of the time-zone lookup.
pub fn forecast_query_with(
    lat: &str,
    lng: &str,
    zone: Result<String, iana_time_zone::GetTimezoneError>,
) -> (r: Result<Vec<(String, String)>, ForecastError>)
    ensures
        query_for(lat@, lng@, zone, r),
{
    match zone {
        Ok(tz) => Ok(forecast_query_in(lat, lng, tz.as_str())),
        Err(e) => Err(ForecastError::Timezone(e)),
    }
}

/// The query parameters of a forecast for the place at `lat`, `lng`, with
/// times given in the machine's time zone.
pub fn forecast_query(lat: &str, lng: &str) -> (r: Result<Vec<(String, String)>, ForecastError>)
    ensures
        exists|zone: Result<String, iana_time_zone::GetTimezoneError>|
            query_for(lat@, lng@, zone, r),
        exists|zone: Result<String, iana_time_zone::GetTimezoneError>|
            is_timezone_lookup(zone) && query_for(lat@, lng@, zone, r),
{
    let zone = system_timezone();
    proof {
        lemma_timezone_lookup(zone);
    }
    forecast_query_with(lat, lng, zone)
}

#[verifier::external_type_specification]
#[verifier::external_body]
pub struct ExUtf8Error(core::str::Utf8Error);

/// `core::str::from_utf8`: the text that `bytes` encode, where they are
/// valid UTF-8, and an error otherwise.
#[verifier::external_body]
fn utf8_text(bytes: &[u8]) -> (r: Result<&str, core::str::Utf8Error>)
    ensures
        r is Ok <==> valid_utf8(bytes@),
        r matches Ok(s) ==> s@ == decode_utf8(bytes@),
{
    core::str::from_utf8(bytes)
}

/// The body of an API answer as text, checked against its HTTP status:
/// non-UTF-8 bodies are refused first, then any status but 200.
pub fn decode_body(status: u16, body: Vec<u8>) -> (r: Result<String, ForecastError>)
    ensures
        !valid_utf8(body@) ==> (r matches Err(ForecastError::NonUtf8 { status: s, bytes: b }) && s
            == status && b@ == body@),
        valid_utf8(body@) && status != 200 ==> (r matches Err(
            ForecastError::BadStatus { status: s, body: text },
        ) && s == status && text@ == decode_utf8(body@)),
        valid_utf8(body@) && status == 200 ==> (r matches Ok(text) && text@ == decode_utf8(
            body@,
        )),
{
    let text = match utf8_text(body.as_slice()) {
        Ok(s) => s.to_owned(),
        Err(_) => {
            return Err(ForecastError::NonUtf8 { status, bytes: body });
        },
    };
    if status != 200 {
        return Err(ForecastError::BadStatus { status, body: text });
    }
    Ok(text)
}

} // verus!
