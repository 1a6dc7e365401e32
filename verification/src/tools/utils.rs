//! Reading replies on an open session.

use vstd::prelude::*;

use crate::json::Json;
use crate::reply::bare_text;
use crate::text::optional_str;

verus! {

/// The text of a bare value.
pub fn extract_string_value(res: &Json) -> (text: Option<&str>)
    ensures
        optional_str(text) == bare_text(res@),
{
    res.get_str("value")
}

} // verus!
