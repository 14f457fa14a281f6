//! The Progress `ENCODE` function: any byte sequence becomes a string of
//! sixteen ASCII letters, through five rounds of byte mixing and a
//! table-driven rolling hash.

mod table;
pub mod encoder;

pub mod laws;

pub use encoder::encode;
