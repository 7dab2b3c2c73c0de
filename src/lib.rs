//! Reconstructs, from the commit log of one package definition file, which
//! revision each released version of the package was current at.

pub mod words;
pub mod history;
pub mod bump;
pub mod builder;
pub mod select;
pub mod manifest;
