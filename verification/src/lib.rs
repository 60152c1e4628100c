//! Decoder for SWIFT MT940 customer statement messages.
//!
//! `mt940::MT940::new` takes the text of a message and hands back its five
//! blocks, decoded, or the first failure. Every decoder borrows from the
//! text it was given and states, over the bytes of that text, what it
//! returns.
pub mod block;
pub mod body;
pub mod calendar;
pub mod codes;
pub mod cursor;
pub mod error;
pub mod identifier;
pub mod iso;
pub mod mt940;
pub mod pattern;
pub mod tag;
pub mod text;
pub mod user;
pub mod utils;
