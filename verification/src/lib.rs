//! A small vehicle-record store: an ordered collection of records keyed by
//! registration number, with lookup, insert, merge-update and delete, each a
//! pure transform over the whole collection. The surrounding service loads the
//! collection from its backing file, applies one transform, and writes the
//! result back.

pub mod db;
pub mod laws;
