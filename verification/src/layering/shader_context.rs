//! Context handed to submasters while they shade a channel.
use vstd::prelude::*;

use crate::layering::Submaster;
use crate::utils::id_alloc::Id;
use crate::utils::smallmap::SmallMap;

verus! {

/// Contains contextual details like timing information for effects.
pub struct ShaderContext<'a> {
    submasters: &'a SmallMap<(Id, Id), Submaster>,
}

} // verus!
