//! Optional byte strings carried as standard base64 text in structured
//! documents: an absent value is written as null, present bytes as the
//! padded base64 text of the bytes, and reading accepts exactly those shapes.
pub mod alphabet;
pub mod codec;
