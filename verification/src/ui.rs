//! What the side panel remembers between frames.

use vstd::prelude::*;

verus! {

/// The entries that are selected in the panel's two lists of node ids: where
/// a path starts and where it ends.
#[derive(Debug)]
pub struct UiState {
    pub selected_start_index: usize,
    pub selected_end_index: usize,
}

impl Default for UiState {
    /// Both selections on the first entry.
    fn default() -> (state: Self)
        ensures
            state.selected_start_index == 0,
            state.selected_end_index == 0,
    {
        UiState { selected_start_index: 0, selected_end_index: 0 }
    }
}

} // verus!
