pub mod client;
pub mod clock;
pub mod common;
pub mod digest;
pub mod events;
pub mod ids;
pub mod journeys;
pub mod names;
pub mod net;
pub mod server;
pub mod table;
pub mod text;
