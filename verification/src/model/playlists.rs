use vstd::prelude::*;
use crate::model::common::{SongGroup, TableState};

verus! {

/// One playlist as it is shown: its name, its songs, and the selection among
/// them.
#[derive(Debug, PartialEq, Eq)]
pub struct PlaylistsChildState {
    pub state: TableState,
    pub name: String,
    pub group: SongGroup,
}

impl Default for PlaylistsChildState {
    fn default() -> (r: PlaylistsChildState)
        ensures
            r.state.selected.is_none(),
            r.name@.len() == 0,
            r.group.metadata@.len() == 0,
            r.group.paths@.len() == 0,
    {
        PlaylistsChildState { state: TableState::default(), name: String::new(), group: SongGroup::default() }
    }
}

} // verus!
