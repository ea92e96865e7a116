//! Where an asset's bytes come from, and the identifier of an asset.

use vstd::prelude::*;
use std::path::PathBuf;

use crate::reactive::key_hash;

verus! {

/// The identifier of an asset: a hash of its source.
#[derive(Clone, Copy, PartialOrd, Eq, PartialEq, Structural, Hash, Debug)]
pub struct AssetId(pub u64);

/// What an asset is.
#[derive(Hash, Debug)]
pub enum AssetSource {
    /// Only PNG format is supported currently.
    Image(AssetDataSource),
}

/// Where the bytes of an asset come from.
#[derive(Hash, Debug)]
pub enum AssetDataSource {
    Path(PathBuf),
    Bytes(Vec<u8>),
    StaticBytes(&'static [u8]),
}

/// Why an asset could not be loaded.
#[derive(Debug)]
pub enum AssetLoadError {
    Io(std::io::Error),
    DecodeError(String),
}

impl AssetId {
    /// The identifier of the asset `src`: equal sources get equal identifiers
    /// within a process.
    pub fn new(src: &AssetSource) -> AssetId {
        AssetId(key_hash(src))
    }
}

impl AssetSource {
    /// Where the bytes of the asset come from.
    pub fn data_source(&self) -> (d: &AssetDataSource)
        ensures
            self matches AssetSource::Image(s) && d == s,
    {
        match self {
            AssetSource::Image(src) => src,
        }
    }
}

} // verus!
