//! Menu entries: the immutable records the layout engine lays out. An entry
//! is a title shown left-aligned, a subtitle on the row below, and a short
//! tag shown right-aligned on the title's row.

use vstd::prelude::*;

verus! {

/// One selectable menu line. Entries are supplied as an ordered list (order
/// is display order) and are read-only to the layout engine.
#[derive(Debug)]
pub struct MenuEntry {
    pub title: String,
    pub subtitle: String,
    pub tag: String,
}

impl MenuEntry {
    pub fn new(title: String, subtitle: String, tag: String) -> (r: MenuEntry)
        ensures
            r.title@ == title@,
            r.subtitle@ == subtitle@,
            r.tag@ == tag@,
    {
        MenuEntry { title, subtitle, tag }
    }
}

} // verus!
