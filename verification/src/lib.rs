//! Network-interface enumeration with a verified core, together with a
//! small client layer for the Discord chat API.
//!
//! The operating system hands back interface addresses as a linked list of
//! family-discriminated raw records; the unverified shell reads that list
//! into plain values, and everything that interprets those values — family
//! dispatch, big-endian address decoding, record assembly — is verified
//! here, in [`ip`].

pub mod discord;
pub mod http;
pub mod ip;
