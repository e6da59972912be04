use vstd::prelude::*;
use vstd::string::StringExecFns;

use crate::string_map::StringMap;
use crate::time::Timestamp;

verus! {

/// What a run remembers of one branch.
#[derive(Debug)]
pub struct BranchState {
    /// The newest commit seen on the branch, by its abbreviated hash.
    pub last_commit: String,
    /// When the branch was last reported.
    pub last_seen: Timestamp,
    /// When the branch was first reported, where that is known.
    pub first_seen: Option<Timestamp>,
}

/// The mathematical value of a [`BranchState`].
pub ghost struct BranchStateView {
    pub last_commit: Seq<char>,
    pub last_seen: Timestamp,
    pub first_seen: Option<Timestamp>,
}

impl View for BranchState {
    type V = BranchStateView;

    open spec fn view(&self) -> BranchStateView {
        BranchStateView {
            last_commit: self.last_commit@,
            last_seen: self.last_seen,
            first_seen: self.first_seen,
        }
    }
}

/// What a run remembers of one source, by the kind of the source.
#[derive(Debug)]
pub enum SourceState {
    /// A repository.
    Git { last_checked: Timestamp, default_branch: String, branches: StringMap<BranchState> },
    /// A checklist file, with the hashes of all its items in file order.
    Todo { last_checked: Timestamp, last_modified: Timestamp, item_hashes: Vec<String> },
    /// A notes directory, with the modification time of each reported file.
    Notes { last_checked: Timestamp, files: StringMap<Timestamp> },
}

/// The mathematical value of a [`SourceState`].
pub ghost enum SourceStateView {
    Git {
        last_checked: Timestamp,
        default_branch: Seq<char>,
        branches: Map<Seq<char>, BranchStateView>,
    },
    Todo { last_checked: Timestamp, last_modified: Timestamp, item_hashes: Seq<Seq<char>> },
    Notes { last_checked: Timestamp, files: Map<Seq<char>, Timestamp> },
}

impl View for SourceState {
    type V = SourceStateView;

    open spec fn view(&self) -> SourceStateView {
        match *self {
            SourceState::Git { last_checked, default_branch, branches } => SourceStateView::Git {
                last_checked,
                default_branch: default_branch@,
                branches: branches@,
            },
            SourceState::Todo {
                last_checked,
                last_modified,
                item_hashes,
            } => SourceStateView::Todo {
                last_checked,
                last_modified,
                item_hashes: item_hashes.deep_view(),
            },
            SourceState::Notes { last_checked, files } => SourceStateView::Notes {
                last_checked,
                files: files@,
            },
        }
    }
}

/// The record that one run leaves for the next: one entry per source, keyed
/// by the path that identifies the source.
#[derive(Debug)]
pub struct State {
    /// The version of the record's format.
    pub version: String,
    /// When the record was last written.
    pub last_updated: Timestamp,
    pub sources: StringMap<SourceState>,
}

/// The mathematical value of a [`State`].
pub ghost struct StateView {
    pub version: Seq<char>,
    pub last_updated: Timestamp,
    pub sources: Map<Seq<char>, SourceStateView>,
}

impl View for State {
    type V = StateView;

    open spec fn view(&self) -> StateView {
        StateView {
            version: self.version@,
            last_updated: self.last_updated,
            sources: self.sources@,
        }
    }
}

impl State {
    /// The record of a first run at `now`: format version `1.0` and no sources.
    pub fn new(now: Timestamp) -> (state: State)
        ensures
            state@.version == "1.0"@,
            state@.last_updated == now,
            state@.sources == Map::<Seq<char>, SourceStateView>::empty(),
    {
        State { version: String::from_str("1.0"), last_updated: now, sources: StringMap::new() }
    }
}

} // verus!
