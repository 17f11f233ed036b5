//! A ticket store kept as one text document per ticket, filed in a directory per
//! lifecycle status.
pub mod status;
pub mod ticket;
mod text;
pub mod scan;
pub mod clock;
pub mod fold;
pub mod legacy;
pub mod resolve;
pub mod deps;
pub mod ident;
pub mod store;
pub mod listing;
pub mod document;
pub mod board;
