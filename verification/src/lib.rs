//! Weather snapshots for a local monitor daemon: the fixed-size wire format
//! that the daemon sends to its clients, and the decisions the daemon takes
//! around it.
pub mod args;
pub mod clients;
pub mod clock;
pub mod codec;
pub mod forecast;
pub mod location;
pub mod refresh;
pub mod server;
pub mod weather;

pub use weather::{CurrentWeather, DailyWeather, HourlyWeather, Weather};
