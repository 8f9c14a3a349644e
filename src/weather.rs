//! The request handler's side of the cache: the inbound request, the
//! normalisation of an upstream answer, and what is stored after a fetch.
use vstd::prelude::*;

use crate::key::{bucket_of, CacheKey, KeyView, WeatherApiType, WeatherLang, WeatherUnits};
use crate::payload::PreparedTemp;
use crate::service::CacheService;
use crate::store::RuntimeCache;

verus! {

/// The body of an inbound request: a city and the raw request time in
/// seconds.
#[derive(Debug, Clone)]
pub struct FormCity {
    pub city: String,
    pub timestamp: u64,
}

impl FormCity {
    /// The key under which this request is cached: current conditions, in
    /// metric units and English, for the bucket (of `width` seconds) that
    /// holds the request time.
    pub fn cache_key(&self, width: u64) -> (r: CacheKey)
        requires
            width > 0,
        ensures
            r@ == (KeyView {
                city: self.city@,
                api_type: WeatherApiType::Current,
                units: WeatherUnits::Metric,
                lang: WeatherLang::En,
                bucket_ts: r.bucket_ts,
            }),
            r.bucket_ts == bucket_of(self.timestamp, width),
    {
        CacheKey::new(
            self.city.clone(),
            WeatherApiType::Current,
            WeatherUnits::Metric,
            WeatherLang::En,
            self.timestamp,
            width,
        )
    }
}

/// Why the upstream weather service gave no usable answer.
#[derive(Debug, Clone, Copy, PartialEq, Eq, Structural)]
pub enum FetchError {
    /// The request did not reach the service, or its answer was cut off.
    Network,
    /// The service answered with this status code, outside 200..=299.
    Status(u16),
    /// The answer lacked a field that the snapshot needs.
    Malformed,
}

/// The upstream "current conditions" record; readings are `f32` bit
/// patterns, `epoch` is in seconds.
#[derive(Debug, Clone, Copy, PartialEq, Eq, Structural)]
pub struct CurrentReading {
    pub temp: u32,
    pub humidity: u32,
    pub pressure: u32,
    pub wind_speed: u32,
    pub epoch: u64,
}

/// One upstream day record; readings are `f32` bit patterns, `epoch` is in
/// seconds.
#[derive(Debug, Clone, Copy, PartialEq, Eq, Structural)]
pub struct DayReading {
    pub temp_max: u32,
    pub temp_min: u32,
    pub epoch: u64,
}

/// An upstream answer reduced to what the cache serves.
#[derive(Debug, Clone, Copy, PartialEq, Eq, Structural)]
pub struct NormalizedWeather {
    pub payload: PreparedTemp,
    /// The later of the current record's time and today's record's time.
    pub timestamp: u64,
    /// Whether those two times were equal; when not, the caller should warn.
    pub epochs_agree: bool,
}

/// The later of two upstream timestamps.
pub fn authoritative_timestamp(current_epoch: u64, day_epoch: u64) -> (r: u64)
    ensures
        r == if current_epoch >= day_epoch {
            current_epoch
        } else {
            day_epoch
        },
{
    if current_epoch >= day_epoch {
        current_epoch
    } else {
        day_epoch
    }
}

/// Whether an HTTP status code reports success.
pub open spec fn is_success(status: u16) -> bool {
    200 <= status <= 299
}

/// Accepts a 2xx status; any other is [`FetchError::Status`].
pub fn check_status(status: u16) -> (r: Result<(), FetchError>)
    ensures
        is_success(status) ==> r is Ok,
        !is_success(status) ==> r == Err::<(), FetchError>(FetchError::Status(status)),
{
    if 200 <= status && status <= 299 {
        Ok(())
    } else {
        Err(FetchError::Status(status))
    }
}

/// The snapshot that an upstream answer yields, from its current record and
/// today's record (the first day).
pub open spec fn normalized(current: CurrentReading, today: DayReading) -> NormalizedWeather {
    NormalizedWeather {
        payload: PreparedTemp {
            temp: current.temp,
            temp_max: today.temp_max,
            temp_min: today.temp_min,
            humidity: current.humidity,
            pressure: current.pressure,
            wind_speed: current.wind_speed,
        },
        timestamp: if current.epoch >= today.epoch {
            current.epoch
        } else {
            today.epoch
        },
        epochs_agree: current.epoch == today.epoch,
    }
}

/// Reduces an upstream answer to a snapshot: temperature, humidity,
/// pressure and wind from the current record, the day's extremes from the
/// first day record. An answer without day records is malformed.
pub fn normalize(current: CurrentReading, days: &Vec<DayReading>) -> (r: Result<
    NormalizedWeather,
    FetchError,
>)
    ensures
        days@.len() == 0 ==> r == Err::<NormalizedWeather, FetchError>(FetchError::Malformed),
        days@.len() > 0 ==> r == Ok::<NormalizedWeather, FetchError>(
            normalized(current, days@[0]),
        ),
{
    if days.len() == 0 {
        return Err(FetchError::Malformed);
    }
    let today = days[0];
    let payload = PreparedTemp::new(
        current.temp,
        today.temp_max,
        today.temp_min,
        current.humidity,
        current.pressure,
        current.wind_speed,
    );
    Ok(
        NormalizedWeather {
            payload,
            timestamp: authoritative_timestamp(current.epoch, today.epoch),
            epochs_agree: current.epoch == today.epoch,
        },
    )
}

/// After a cache miss: on a successful fetch, stores its snapshot under
/// `key` and returns it; on a failed one, leaves the cache as it was and
/// returns the error.
pub fn store_fetched(
    cache: &mut CacheService<RuntimeCache>,
    key: CacheKey,
    fetched: Result<NormalizedWeather, FetchError>,
) -> (r: Result<PreparedTemp, FetchError>)
    requires
        old(cache).wf(),
    ensures
        final(cache).wf(),
        final(cache).width() == old(cache).width(),
        match fetched {
            Ok(w) => r == Ok::<PreparedTemp, FetchError>(w.payload) && final(cache)@ == old(
                cache,
            )@.insert(key@, w.payload),
            Err(e) => r == Err::<PreparedTemp, FetchError>(e) && final(cache)@ == old(cache)@,
        },
{
    match fetched {
        Ok(w) => {
            cache.set(key, w.payload);
            Ok(w.payload)
        },
        Err(e) => Err(e),
    }
}

} // verus!
