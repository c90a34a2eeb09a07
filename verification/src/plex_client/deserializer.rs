//! How the library spells a flag.

use crate::text::same_text;
use vstd::prelude::*;

verus! {

/// The flag that an attribute of the library stands for: set where the
/// attribute reads `1`, and clear where it reads anything else or could not
/// be read at all (`None`).
pub fn deserialize_integer_bool(attribute: Option<&str>) -> (flag: bool)
    ensures
        flag == (attribute matches Some(text) && text@ == "1"@),
{
    match attribute {
        Some(text) => same_text(text, "1"),
        None => false,
    }
}

} // verus!
