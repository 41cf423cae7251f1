//! A bridge that lets a numeric-only caller stage bytes in library-owned
//! buffers, turn them into a greeting, and hold the result by an integer
//! handle until it is released.
pub mod bridge;
pub mod errors;
pub mod greeting;
pub mod lifecycle;
pub mod messages;
