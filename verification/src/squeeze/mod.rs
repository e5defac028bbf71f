// Embedded SlimProto server logic for streaming audio to Squeeze-compatible
// players (e.g. Eversolo, Squeezelite).

pub mod codec;
pub mod cometd;
pub mod discovery;
pub mod queue;
pub mod player;
pub mod server;
pub mod streaming;
pub mod webui;
