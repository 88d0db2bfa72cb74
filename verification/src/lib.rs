//! Verified core of a small terminal password manager: the cipher service
//! that protects stored secrets, the alphanumeric password generator, the
//! append-only four-line record format of the store file, and the command
//! interpreter that parses operator input and decides what to do.

pub mod cipher;
pub mod command;
pub mod passgen;
pub mod record;
pub mod text;
