//! Where the bytes of an SVG image come from.

use vstd::prelude::*;
use std::path::PathBuf;
use std::sync::Arc;

verus! {

/// The source of an SVG image: a file or its bytes.
#[derive(Clone, Hash, Debug)]
pub enum Data {
    Path(PathBuf),
    Bytes(Arc<Vec<u8>>),
    StaticBytes(&'static [u8]),
}

} // verus!
