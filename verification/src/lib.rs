//! Live log tailing for a game client's console log, the lobby event matcher
//! that runs over the tailed lines, and the player records shown for a lobby.

pub mod decimal;
pub mod dota_match;
pub mod log_watch;
pub mod matcher;
pub mod opendota;
pub mod roster;
pub mod style;
pub mod text;
