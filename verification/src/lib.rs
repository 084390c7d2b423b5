//! Building blocks of a synthetic memory-load generator: a parser for
//! human-readable byte sizes and the controller that decides, step by step,
//! how much memory to claim and when to pause.
//!
//! The library claims no memory and never sleeps. A driver asks a
//! [`RampController`] for one [`Action`] after another and carries each out.

pub mod bytes;
pub mod controller;
pub mod error;
pub mod ramp;
pub mod text;
pub mod unit;

pub use bytes::Bytes;
pub use controller::RampController;
pub use error::{ConfigError, Error};
pub use ramp::{Action, RampConfig};
pub use unit::SizeUnit;
