//! Relay logic for remotely piloted vehicles: the wire messages exchanged by
//! pilots and vehicles, the broker's connection registry and routing rules,
//! and the vehicle's mapping from control axes to servo pulse widths.
//!
//! The library decides and the caller performs: sockets, queues and PWM
//! outputs stay outside, and every function here works on plain values.

pub mod binary64;
pub mod codec;
pub mod error;
pub mod json;
pub mod message;
pub mod registry;
pub mod routing;
pub mod servo;
pub mod vehicle;

pub use codec::{build_control_message, parse_control_message};
pub use error::{error_chain_fmt, ServerError};
pub use message::{
    id_from_str,
    ClientType,
    ControlMessage,
    ControlMessageData,
    DateTime,
    Id,
    IdentificationMessageData,
    LatencyRequestMessageData,
    LatencyResponseMessageData,
};
pub use routing::ControlMessageAction;
