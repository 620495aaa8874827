//! Turns the declarations of a vendor extension header into the XML fragments
//! that a central API registry expects: one `<command>` block per
//! function-pointer typedef, one `<type>` block per struct typedef, and one
//! `<extension>` block per file collecting its enum additions.
//!
//! The library works on a plain-data model of the parsed header (see
//! [`decl`]); an unverified front end fills that model in and hands it over.

pub mod ctype;
pub mod decl;
pub mod decode;
pub mod handlers;
pub mod records;
pub mod serialize;
pub mod text;
