//! Core logic of a voice assistant that runs on an ESP32 board: the
//! microphone and speaker state machines, the speech pipeline's decisions,
//! the frames of the speech services' websocket protocol, the chat request
//! body, and the pieces of the configuration web server that compute.

mod text;

pub mod content_type;
pub mod request;
pub mod response;
pub mod wifi;
pub mod mic;
pub mod pipeline;
pub mod protocol;
pub mod speech;
pub mod config;
