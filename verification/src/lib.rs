//! Reading-log helpers for a visual-novel reading tracker: parsing and
//! printing reading durations, weekly statistics over logged reading
//! sessions, calendar helpers and the text of the replies sent to users.

pub mod text;
pub mod duration;
pub mod calendar;
pub mod messages;
pub mod stats;
pub mod sheets;
