//! Where fetched verse text is cached: one JSON file per surah.

use vstd::prelude::*;

use crate::content::resolver::{join, join_path};
use crate::text::{decimal, pad3, push_three_digit};

verus! {

/// The cache path for one surah: `<dir>/NNN.json`.
pub fn cache_path(dir: &str, surah: u16) -> (r: String)
    ensures
        r@ == join_path(dir@, pad3(decimal(surah as nat)) + ".json"@),
{
    let mut file = String::new();
    push_three_digit(&mut file, surah);
    file.append(".json");
    join(dir, file.as_str())
}

} // verus!
