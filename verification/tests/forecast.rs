use weather_mon::forecast::{
    decode_body, forecast_query, forecast_query_in, forecast_query_with, CurrentResponse, DailyResponse, ForecastError, FullResponse,
    HourlyResponse,
};
use weather_mon::{CurrentWeather, Weather};

fn hourly(times: &[i64]) -> HourlyResponse {
    HourlyResponse {
        time: times.to_vec(),
        temperature_2m_bits: times.iter().map(|t| (*t as f32).to_bits()).collect(),
        weather_code: times.iter().map(|t| (*t % 100) as u8).collect(),
    }
}

fn daily(times: &[i64]) -> DailyResponse {
    DailyResponse {
        time: times.to_vec(),
        temperature_2m_min_bits: times.iter().map(|t| (*t as f32 - 5.0).to_bits()).collect(),
        temperature_2m_max_bits: times.iter().map(|t| (*t as f32 + 5.0).to_bits()).collect(),
        weather_code: times.iter().map(|t| (*t % 100) as u8).collect(),
    }
}

fn full(h: &[i64], d: &[i64]) -> FullResponse {
    FullResponse {
        current: CurrentResponse {
            temperature_2m_bits: 12.5f32.to_bits(),
            weather_code: 2,
        },
        hourly: hourly(h),
        daily: daily(d),
    }
}

#[test]
fn hourly_keeps_the_first_ten_after_now() {
    let times: Vec<i64> = (0..24).map(|i| 1000 + 3600 * i).collect();
    let now = 1000 + 3600 * 5;
    let hs = hourly(&times).select(now).unwrap();
    let got: Vec<i64> = hs.iter().map(|h| h.time).collect();
    let expected: Vec<i64> = (6..16).map(|i| 1000 + 3600 * i).collect();
    assert_eq!(got, expected);
    assert_eq!(hs[0].t_bits, (times[6] as f32).to_bits());
    assert_eq!(hs[0].code, (times[6] % 100) as u8);
}

#[test]
fn hourly_entry_at_now_is_not_upcoming() {
    let times: Vec<i64> = (0..11).collect();
    let hs = hourly(&times).select(0).unwrap();
    assert_eq!(hs[0].time, 1);
    assert_eq!(hs[9].time, 10);
    assert!(matches!(
        hourly(&times).select(1),
        Err(ForecastError::NotEnoughHourly)
    ));
}

#[test]
fn hourly_needs_ten_entries() {
    let times: Vec<i64> = (0..9).collect();
    assert!(matches!(
        hourly(&times).select(-1),
        Err(ForecastError::NotEnoughHourly)
    ));
}

#[test]
fn hourly_arrays_are_zipped_to_the_shortest() {
    let times: Vec<i64> = (0..20).collect();
    let mut res = hourly(&times);
    res.weather_code.truncate(10);
    assert_eq!(res.select(-1).unwrap()[9].time, 9);
    res.temperature_2m_bits.truncate(9);
    assert!(matches!(res.select(-1), Err(ForecastError::NotEnoughHourly)));
}

#[test]
fn hourly_skips_past_entries_anywhere_in_the_list() {
    let mut times: Vec<i64> = (100..112).collect();
    times.insert(3, 5);
    let hs = hourly(&times).select(50).unwrap();
    let got: Vec<i64> = hs.iter().map(|h| h.time).collect();
    assert_eq!(got, (100..110).collect::<Vec<i64>>());
}

#[test]
fn daily_keeps_days_from_the_day_start() {
    let times: Vec<i64> = (0..8).map(|i| 86_400 * i).collect();
    let ds = daily(&times).select(86_400).unwrap();
    let got: Vec<i64> = ds.iter().map(|d| d.time).collect();
    assert_eq!(got, (1..7).map(|i| 86_400 * i).collect::<Vec<i64>>());
    assert_eq!(ds[0].t_min_bits, (86_400f32 - 5.0).to_bits());
    assert_eq!(ds[0].t_max_bits, (86_400f32 + 5.0).to_bits());
}

#[test]
fn daily_needs_six_entries() {
    let times: Vec<i64> = (0..7).collect();
    assert!(daily(&times).select(1).is_ok());
    assert!(matches!(
        daily(&times).select(2),
        Err(ForecastError::NotEnoughDaily)
    ));
}

#[test]
fn snapshot_from_response() {
    let h: Vec<i64> = (0..30).collect();
    let d: Vec<i64> = (0..10).map(|i| 100 * i).collect();
    let w = Weather::from_response_at(full(&h, &d), 14, Some(250)).unwrap();
    assert_eq!(
        w.current,
        CurrentWeather {
            t_bits: 12.5f32.to_bits(),
            code: 2
        }
    );
    assert_eq!(w.hourly[0].time, 15);
    assert_eq!(w.hourly[9].time, 24);
    assert_eq!(w.daily[0].time, 300);
    assert_eq!(w.daily[5].time, 800);
}

#[test]
fn snapshot_errors_come_in_order() {
    let h: Vec<i64> = (0..30).collect();
    let d: Vec<i64> = (0..10).collect();
    assert!(matches!(
        Weather::from_response_at(full(&h[..5], &d[..2]), 0, None),
        Err(ForecastError::NotEnoughHourly)
    ));
    assert!(matches!(
        Weather::from_response_at(full(&h, &d[..2]), 0, None),
        Err(ForecastError::DayStartUnknown)
    ));
    assert!(matches!(
        Weather::from_response_at(full(&h, &d[..2]), 0, Some(0)),
        Err(ForecastError::NotEnoughDaily)
    ));
}

#[test]
fn current_weather_from_response() {
    let w = CurrentWeather::from(CurrentResponse {
        temperature_2m_bits: 7,
        weather_code: 80,
    });
    assert_eq!(w, CurrentWeather { t_bits: 7, code: 80 });
}

#[test]
fn snapshot_from_the_clock_is_built_from_the_response() {
    // Entries far in the future are upcoming whatever the clock says.
    let h: Vec<i64> = (0..10).map(|i| i64::MAX - 100 + i).collect();
    let d: Vec<i64> = (0..6).map(|i| i64::MAX - 100 + i).collect();
    match Weather::try_from_response(full(&h, &d)) {
        Ok(w) => {
            assert_eq!(w.hourly[0].time, i64::MAX - 100);
            assert_eq!(w.daily[5].time, i64::MAX - 95);
        }
        Err(e) => assert!(matches!(e, ForecastError::DayStartUnknown)),
    }
    // Entries in the distant past never are.
    assert!(matches!(
        Weather::try_from_response(full(&[0; 12], &[0; 8])),
        Err(ForecastError::NotEnoughHourly)
    ));
}

#[test]
fn query_lists_the_parameters() {
    let q = forecast_query_in("48.85", "2.35", "Europe/Paris");
    let q: Vec<(&str, &str)> = q.iter().map(|(k, v)| (k.as_str(), v.as_str())).collect();
    assert_eq!(
        q,
        vec![
            ("latitude", "48.85"),
            ("longitude", "2.35"),
            ("current", "temperature_2m,weather_code"),
            ("hourly", "temperature_2m,weather_code"),
            ("daily", "temperature_2m_min,temperature_2m_max,weather_code"),
            ("timezone", "Europe/Paris"),
            ("timeformat", "unixtime"),
        ]
    );
}

#[test]
fn body_is_text_on_success() {
    let r = decode_body(200, b"{\"a\":1}".to_vec());
    assert_eq!(r.unwrap(), "{\"a\":1}");
}

#[test]
fn body_with_bad_status_is_refused() {
    match decode_body(503, "busy é".as_bytes().to_vec()) {
        Err(ForecastError::BadStatus { status, body }) => {
            assert_eq!(status, 503);
            assert_eq!(body, "busy é");
        }
        other => panic!("unexpected {other:?}"),
    }
}

#[test]
fn non_utf8_body_is_refused_before_the_status() {
    match decode_body(404, vec![0x66, 0xff, 0x6f]) {
        Err(ForecastError::NonUtf8 { status, bytes }) => {
            assert_eq!(status, 404);
            assert_eq!(bytes, vec![0x66, 0xff, 0x6f]);
        }
        other => panic!("unexpected {other:?}"),
    }
    assert!(matches!(
        decode_body(200, vec![0xc3]),
        Err(ForecastError::NonUtf8 { status: 200, .. })
    ));
}

#[test]
fn query_uses_the_zone_that_was_found() {
    let q = forecast_query_with("1.5", "-2", Ok("UTC".to_string())).unwrap();
    assert_eq!(q.len(), 7);
    assert_eq!(q[0], ("latitude".to_string(), "1.5".to_string()));
    assert_eq!(q[1], ("longitude".to_string(), "-2".to_string()));
    assert_eq!(q[5], ("timezone".to_string(), "UTC".to_string()));
}

#[test]
fn query_carries_the_zone_lookup_error() {
    let r = forecast_query_with(
        "1.5",
        "-2",
        Err(iana_time_zone::GetTimezoneError::OsError),
    );
    assert!(matches!(
        r,
        Err(ForecastError::Timezone(
            iana_time_zone::GetTimezoneError::OsError
        ))
    ));
    let r = forecast_query_with(
        "1.5",
        "-2",
        Err(iana_time_zone::GetTimezoneError::FailedParsingString),
    );
    assert!(matches!(
        r,
        Err(ForecastError::Timezone(
            iana_time_zone::GetTimezoneError::FailedParsingString
        ))
    ));
}

#[test]
fn query_in_the_machine_zone() {
    match forecast_query("1", "2") {
        Ok(q) => {
            assert_eq!(q[0].1, "1");
            assert_eq!(q[5].0, "timezone");
        }
        Err(e) => assert!(matches!(e, ForecastError::Timezone(_))),
    }
}
