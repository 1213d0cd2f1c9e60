use weather_mon::weather::{DAILIES, HOURLIES, WEATHER_BYTESIZE};
use weather_mon::{CurrentWeather, DailyWeather, HourlyWeather, Weather};

fn random_current() -> CurrentWeather {
    CurrentWeather {
        t_bits: rand::random::<f32>().to_bits(),
        code: rand::random(),
    }
}

fn random_hourly() -> HourlyWeather {
    HourlyWeather {
        time: rand::random(),
        t_bits: rand::random::<f32>().to_bits(),
        code: rand::random(),
    }
}

fn random_daily() -> DailyWeather {
    DailyWeather {
        time: rand::random(),
        t_min_bits: rand::random::<f32>().to_bits(),
        t_max_bits: rand::random::<f32>().to_bits(),
        code: rand::random(),
    }
}

fn random_weather() -> Weather {
    Weather {
        current: random_current(),
        hourly: std::array::from_fn(|_| random_hourly()),
        daily: std::array::from_fn(|_| random_daily()),
    }
}

#[test]
fn test_serialize_current_weather() {
    let w = random_current();
    assert_eq!(CurrentWeather::deserialize(w.serialize()), w);
}

#[test]
fn test_serialize_hourly_weather() {
    let w = random_hourly();
    assert_eq!(HourlyWeather::deserialize(w.serialize()), w);
}

#[test]
fn test_serialize_daily_weather() {
    let w = random_daily();
    assert_eq!(DailyWeather::deserialize(w.serialize()), w);
}

#[test]
fn test_serialize_weather() {
    let w = random_weather();
    assert_eq!(Weather::deserialize(w.serialize()), w);
}

#[test]
fn sizes_match_the_layout() {
    assert_eq!(CurrentWeather::BYTESIZE, 8);
    assert_eq!(HourlyWeather::BYTESIZE, 16);
    assert_eq!(DailyWeather::BYTESIZE, 24);
    assert_eq!(Weather::HOURLIES, HOURLIES);
    assert_eq!(Weather::DAILIES, DAILIES);
    assert_eq!(Weather::BYTESIZE, 8 + 16 * 10 + 24 * 6);
    assert_eq!(WEATHER_BYTESIZE, 312);
}

#[test]
fn current_weather_bytes_are_big_endian() {
    let w = CurrentWeather {
        t_bits: 21.5f32.to_bits(),
        code: 3,
    };
    assert_eq!(w.t_bits, 0x41ac_0000);
    assert_eq!(w.serialize(), [0x41, 0xac, 0x00, 0x00, 3, 0, 0, 0]);
    assert_eq!(w.serialize()[0..4], 21.5f32.to_be_bytes());
}

#[test]
fn hourly_weather_bytes_are_big_endian() {
    let w = HourlyWeather {
        time: 0x0102_0304_0506_0708,
        t_bits: (-1.0f32).to_bits(),
        code: 61,
    };
    assert_eq!(
        w.serialize(),
        [1, 2, 3, 4, 5, 6, 7, 8, 0xbf, 0x80, 0, 0, 61, 0, 0, 0]
    );
}

#[test]
fn negative_time_is_twos_complement() {
    let w = HourlyWeather {
        time: -2,
        t_bits: 0,
        code: 0,
    };
    let b = w.serialize();
    assert_eq!(b[0..8], (-2i64).to_be_bytes());
    assert_eq!(HourlyWeather::deserialize(b).time, -2);
}

#[test]
fn daily_weather_bytes_are_big_endian() {
    let w = DailyWeather {
        time: 1_700_000_000,
        t_min_bits: 0x0a0b_0c0d,
        t_max_bits: 0x1a1b_1c1d,
        code: 95,
    };
    let mut expected = [0u8; 24];
    expected[0..8].copy_from_slice(&1_700_000_000i64.to_be_bytes());
    expected[8..12].copy_from_slice(&[0x0a, 0x0b, 0x0c, 0x0d]);
    expected[12..16].copy_from_slice(&[0x1a, 0x1b, 0x1c, 0x1d]);
    expected[16] = 95;
    assert_eq!(w.serialize(), expected);
}

#[test]
fn weather_layout_places_records_in_order() {
    let w = random_weather();
    let b = w.serialize();
    assert_eq!(b[0..8], w.current.serialize());
    for (i, h) in w.hourly.iter().enumerate() {
        assert_eq!(b[8 + 16 * i..8 + 16 * (i + 1)], h.serialize());
    }
    for (i, d) in w.daily.iter().enumerate() {
        assert_eq!(b[168 + 24 * i..168 + 24 * (i + 1)], d.serialize());
    }
}

#[test]
fn nan_payloads_survive_the_roundtrip() {
    let w = CurrentWeather {
        t_bits: 0x7fc0_1234,
        code: 0,
    };
    let back = CurrentWeather::deserialize(w.serialize());
    assert_eq!(back.t_bits, w.t_bits);
    assert_eq!(back.code, w.code);
    // Like an `f32` NaN, a record holding one equals nothing.
    assert_ne!(back, w);
}

#[test]
fn temperatures_compare_as_floats() {
    let plus = CurrentWeather {
        t_bits: 0.0f32.to_bits(),
        code: 1,
    };
    let minus = CurrentWeather {
        t_bits: (-0.0f32).to_bits(),
        code: 1,
    };
    assert_eq!(plus, minus);
    assert_ne!(plus, CurrentWeather { t_bits: 1.0f32.to_bits(), code: 1 });
    assert_ne!(plus, CurrentWeather { t_bits: 0, code: 2 });
    let h = HourlyWeather {
        time: 5,
        t_bits: (-0.0f32).to_bits(),
        code: 3,
    };
    assert_eq!(h, HourlyWeather { time: 5, t_bits: 0, code: 3 });
    assert_ne!(h, HourlyWeather { time: 6, t_bits: 0, code: 3 });
    let nan = DailyWeather {
        time: 1,
        t_min_bits: f32::NAN.to_bits(),
        t_max_bits: 0,
        code: 0,
    };
    assert_ne!(nan, nan);
    let mut w = random_weather();
    let mut v = w;
    assert_eq!(w, v);
    v.hourly[3].t_bits ^= 0x8000_0000;
    w.hourly[3].t_bits = 0;
    v.hourly[3].t_bits = 0x8000_0000;
    assert_eq!(w, v);
    v.daily[5].code ^= 1;
    assert_ne!(w, v);
}

#[test]
fn well_padded_bytes_survive_the_roundtrip() {
    let mut b = [0u8; WEATHER_BYTESIZE];
    for (i, x) in b.iter_mut().enumerate() {
        *x = (i * 7 + 1) as u8;
    }
    // Zero the padding of every record.
    for k in 5..8 {
        b[k] = 0;
    }
    for i in 0..HOURLIES {
        for k in 13..16 {
            b[8 + 16 * i + k] = 0;
        }
    }
    for i in 0..DAILIES {
        for k in 17..24 {
            b[168 + 24 * i + k] = 0;
        }
    }
    assert_eq!(Weather::deserialize(b).serialize(), b);
}

#[test]
fn padding_is_not_kept() {
    let mut b = CurrentWeather { t_bits: 7, code: 1 }.serialize();
    b[7] = 0xff;
    let w = CurrentWeather::deserialize(b);
    assert_eq!(w, CurrentWeather { t_bits: 7, code: 1 });
    assert_ne!(w.serialize(), b);
}
