//! The record of the previous run, by source.

pub mod types;

pub use types::{BranchState, BranchStateView, SourceState, SourceStateView, State, StateView};

use vstd::prelude::*;

verus! {

/// The record of the source `source_name`, if the state has one.
pub fn get_source<'a>(state: &'a State, source_name: &str) -> (found: Option<&'a SourceState>)
    ensures
        match found {
            Some(s) => state@.sources.contains_key(source_name@) && s@
                == state@.sources[source_name@],
            None => !state@.sources.contains_key(source_name@),
        },
{
    state.sources.get(source_name)
}

/// Stores `source_state` as the record of `source_name`, in place of the
/// record that the source had, if any. No other source changes.
pub fn update_source(state: &mut State, source_name: String, source_state: SourceState)
    ensures
        final(state)@.sources == old(state)@.sources.insert(source_name@, source_state@),
        final(state)@.version == old(state)@.version,
        final(state)@.last_updated == old(state)@.last_updated,
{
    state.sources.insert(source_name, source_state);
}

} // verus!
