//! A movie review program: reviews, comments and the tokens paid for them.
//!
//! Every decision that the program takes is a verified function from plain
//! values to plain values. What only the host can do (ask for the rent, invoke
//! another program, read and write account data) is handed out as an
//! [`step::Action`] and answered with a [`step::Event`].

pub mod codec;
pub mod error;
pub mod instruction;
pub mod invoke;
pub mod laws;
pub mod model;
pub mod processor;
pub mod pubkey;
pub mod state;
pub mod step;
