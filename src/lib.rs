//! Looks up a game on several services and merges what each of them knows
//! into one record.
pub mod error;
pub mod games;
pub mod howlongtobeat;
pub mod laws;
pub mod names;
pub mod opencritic;
pub mod steam;
pub mod text;

pub use error::Error;
pub use games::{get_data, GameData};
pub use names::Names;
