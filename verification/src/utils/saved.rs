//! What a plugin finds in the show file when it starts.
use vstd::prelude::*;

verus! {

/// A plugin's data as read from the show file.
pub enum SavedData<T> {
    /// Data was saved, but could not be read
    Unreadable,
    /// Nothing was saved for the plugin
    NothingSaved,
    /// The data that was saved
    Saved(T),
}

} // verus!
