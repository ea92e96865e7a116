//! Where the bytes of a PNG image come from.

use vstd::prelude::*;
use std::path::PathBuf;
use std::sync::Arc;

verus! {

/// The source of a PNG image: a file, encoded bytes, or RGBA pixels given
/// with their width and height.
#[derive(Clone, Hash, Debug)]
pub enum Data {
    Path(PathBuf),
    Bytes(Arc<Vec<u8>>),
    StaticBytes(&'static [u8]),
    Rgba { width: u32, height: u32, pixels: Vec<u8> },
}

} // verus!
