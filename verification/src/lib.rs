//! Frame model, wire protocol and connection logic of a local camera
//! fan-out service.

pub mod camera;
pub mod capture;
pub mod client;
pub mod error;
pub mod frame;
pub mod jpeg;
pub mod protocol;
pub mod server;
pub mod stream;
pub mod supervisor;
pub mod transform;
