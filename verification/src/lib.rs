//! Protocol logic for the sixteen-channel 4-20 mA current-loop AD module.
//!
//! The module sits on a serial line, is asked with short ASCII commands and
//! answers with fixed-width text. This library encodes the commands, decodes
//! the replies and orders the steps of one exchange. It does not touch the
//! line: whoever owns the port writes what [`Action`] says and reports back
//! with an [`Event`].

pub mod command;
pub mod error;
pub mod exchange;
pub mod literal;
pub mod reading;
pub mod reply;

pub use command::encode;
pub use error::Error;
pub use exchange::{Action, Ad, Event, Phase, Reply, Request};
pub use reading::Reading;
pub use reply::{decode, decode_chan};
