//! What a basketball game holds beyond its score: nothing.

use vstd::prelude::*;
use crate::baseball::yields_extra;
use crate::error::Error;
use crate::game::{ExtraGameData, ExtraView};
use crate::json::Json;

verus! {

/// The extra data of a basketball game, which has no fields.
pub fn get_basketball_data(_competition: &Json) -> (r: Result<ExtraGameData, Error>)
    ensures
        yields_extra(r, Ok(ExtraView::Basketball)),
{
    Ok(ExtraGameData::Basketball)
}

} // verus!
