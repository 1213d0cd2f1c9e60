use weather_mon::args::{Args, ArgsError, RunMode};
use weather_mon::location::{pick_location, Location, LocationError, Source};
use weather_mon::refresh::{Attempts, RetryEvent, RetryStep, WeatherClient};
use weather_mon::server::{dev_socket_path, Server};
use weather_mon::{CurrentWeather, DailyWeather, HourlyWeather, Weather};

#[test]
fn args_select_the_mode() {
    assert_eq!(Args::parse(Some("--systemd")).unwrap().mode, RunMode::Systemd);
    assert_eq!(Args::parse(Some("--dev")).unwrap().mode, RunMode::Dev);
    assert!(matches!(Args::parse(None), Err(ArgsError::Missing)));
    match Args::parse(Some("--devel")) {
        Err(ArgsError::Unknown(s)) => assert_eq!(s, "--devel"),
        other => panic!("unexpected {other:?}"),
    }
    assert!(matches!(Args::parse(Some("")), Err(ArgsError::Unknown(_))));
}

fn loc(lat: f64, lng: f64, source: Source) -> Location {
    Location {
        lat_bits: lat.to_bits(),
        lng_bits: lng.to_bits(),
        source,
    }
}

#[test]
fn location_prefers_freegeoip_then_ipapi_then_ipwhois() {
    let all = vec![
        loc(3.0, 3.5, Source::IpWhoIs),
        loc(2.0, 2.5, Source::IpAPI),
        loc(1.0, 1.5, Source::FreeGeoIP),
        loc(9.0, 9.5, Source::FreeGeoIP),
    ];
    assert_eq!(
        pick_location(&all),
        Ok((1.0f64.to_bits(), 1.5f64.to_bits()))
    );
    assert_eq!(
        pick_location(&all[..2].to_vec()),
        Ok((2.0f64.to_bits(), 2.5f64.to_bits()))
    );
    assert_eq!(
        pick_location(&all[..1].to_vec()),
        Ok((3.0f64.to_bits(), 3.5f64.to_bits()))
    );
    assert_eq!(pick_location(&vec![]), Err(LocationError::NoLocation));
}

#[test]
fn dev_socket_lives_in_the_runtime_dir() {
    assert_eq!(
        dev_socket_path("/run/user/1000"),
        "/run/user/1000/weather-mon-dev.sock"
    );
}

#[test]
fn client_ids_count_up_and_wrap() {
    let mut s = Server::from_listener(());
    assert_eq!(s.next_client_id(), 1);
    assert_eq!(s.next_client_id(), 2);
    assert_eq!(s.next_client_id(), 3);
    assert_eq!(s.listener(), &());
}

#[test]
fn attempts_are_numbered_up_to_the_limit() {
    let mut a = Attempts::new(3);
    assert_eq!(a.next(), Some(1));
    assert_eq!(a.next(), Some(2));
    assert_eq!(a.next(), Some(3));
    assert_eq!(a.next(), None);
    assert_eq!(a.next(), None);
    let mut none = Attempts::new(0);
    assert_eq!(none.next(), None);
}

fn snapshot(code: u8) -> Weather {
    Weather {
        current: CurrentWeather { t_bits: 0, code },
        hourly: [HourlyWeather {
            time: 1,
            t_bits: 2,
            code,
        }; 10],
        daily: [DailyWeather {
            time: 1,
            t_min_bits: 2,
            t_max_bits: 3,
            code,
        }; 6],
    }
}

#[test]
fn cache_keeps_the_last_successful_fetch() {
    let mut wc = WeatherClient::new("http");
    assert_eq!(WeatherClient::<&str>::INITIAL_ATTEMPTS, 10);
    assert_eq!(WeatherClient::<&str>::REFRESH_ATTEMPTS, 10);
    assert_eq!(wc.current(), None);
    assert_eq!(wc.record_refresh(None), None);
    assert_eq!(wc.current(), None);
    assert_eq!(wc.record_refresh(Some(snapshot(1))), Some(snapshot(1)));
    assert_eq!(wc.current(), Some(snapshot(1)));
    assert_eq!(wc.record_refresh(None), None);
    assert_eq!(wc.current(), Some(snapshot(1)));
    wc.record_refresh(Some(snapshot(2)));
    assert_eq!(wc.current(), Some(snapshot(2)));
    assert_eq!(*wc.clients(), "http");
}

#[test]
fn failing_run_attempts_pauses_then_gives_up() {
    let mut run = Attempts::new(2);
    assert_eq!(run.step(RetryEvent::Started), RetryStep::Attempt(1));
    assert_eq!(run.step(RetryEvent::Failed), RetryStep::Pause);
    assert_eq!(run.step(RetryEvent::Paused), RetryStep::Attempt(2));
    assert_eq!(run.step(RetryEvent::Failed), RetryStep::Pause);
    assert_eq!(run.step(RetryEvent::Paused), RetryStep::GiveUp);
    assert_eq!(run.step(RetryEvent::Paused), RetryStep::GiveUp);
}

#[test]
fn run_stops_at_the_first_success() {
    let mut run = Attempts::new(10);
    assert_eq!(run.step(RetryEvent::Started), RetryStep::Attempt(1));
    assert_eq!(run.step(RetryEvent::Failed), RetryStep::Pause);
    assert_eq!(run.step(RetryEvent::Paused), RetryStep::Attempt(2));
    assert_eq!(run.step(RetryEvent::Succeeded), RetryStep::Finish);
    let mut empty = Attempts::new(0);
    assert_eq!(empty.step(RetryEvent::Started), RetryStep::GiveUp);
}
