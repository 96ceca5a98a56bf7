//! How the color bar colors its values.
use vstd::prelude::*;

verus! {

/// What the color bar shows.
#[derive(Debug, Clone, Copy, PartialEq, Eq, Structural, PartialOrd, Ord, Hash)]
pub enum ColorBarColorMode {
    Color,
    Probability,
}

} // verus!
