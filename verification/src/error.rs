//! The ways in which a run can fail.

use vstd::prelude::*;
use vstd::string::StringExecFns;

verus! {

/// A failure, with the text that describes it.
#[derive(Debug)]
pub enum ChronicleError {
    /// The settings are unusable: a bad path, a bad date.
    Config(String),
    /// The record of the previous run is unusable.
    State(String),
    /// A source could not be read. Only that source is skipped.
    Collector(String),
    /// A report could not be laid out.
    Renderer(String),
    /// A file could not be read or written.
    Io(String),
    /// A repository could not be read.
    Git(String),
    /// The settings file is not valid TOML.
    TomlParse(String),
    /// The record of the previous run is not valid JSON.
    Json(String),
}

/// The mathematical value of a [`ChronicleError`].
pub ghost enum ChronicleErrorView {
    Config(Seq<char>),
    State(Seq<char>),
    Collector(Seq<char>),
    Renderer(Seq<char>),
    Io(Seq<char>),
    Git(Seq<char>),
    TomlParse(Seq<char>),
    Json(Seq<char>),
}

impl View for ChronicleError {
    type V = ChronicleErrorView;

    open spec fn view(&self) -> ChronicleErrorView {
        match *self {
            ChronicleError::Config(m) => ChronicleErrorView::Config(m@),
            ChronicleError::State(m) => ChronicleErrorView::State(m@),
            ChronicleError::Collector(m) => ChronicleErrorView::Collector(m@),
            ChronicleError::Renderer(m) => ChronicleErrorView::Renderer(m@),
            ChronicleError::Io(m) => ChronicleErrorView::Io(m@),
            ChronicleError::Git(m) => ChronicleErrorView::Git(m@),
            ChronicleError::TomlParse(m) => ChronicleErrorView::TomlParse(m@),
            ChronicleError::Json(m) => ChronicleErrorView::Json(m@),
        }
    }
}

impl ChronicleErrorView {
    /// The text shown for the failure: what kind it is, then its own text.
    pub open spec fn text(self) -> Seq<char> {
        match self {
            ChronicleErrorView::Config(m) => "Configuration error: "@ + m,
            ChronicleErrorView::State(m) => "State file error: "@ + m,
            ChronicleErrorView::Collector(m) => "Collector error: "@ + m,
            ChronicleErrorView::Renderer(m) => "Renderer error: "@ + m,
            ChronicleErrorView::Io(m) => "IO error: "@ + m,
            ChronicleErrorView::Git(m) => "Git error: "@ + m,
            ChronicleErrorView::TomlParse(m) => "TOML parsing error: "@ + m,
            ChronicleErrorView::Json(m) => "JSON error: "@ + m,
        }
    }
}

impl ChronicleError {
    /// The text shown for the failure.
    pub fn to_string(&self) -> (text: String)
        ensures
            text@ == self@.text(),
    {
        match self {
            ChronicleError::Config(m) => String::from_str("Configuration error: ").concat(
                m.as_str(),
            ),
            ChronicleError::State(m) => String::from_str("State file error: ").concat(m.as_str()),
            ChronicleError::Collector(m) => String::from_str("Collector error: ").concat(
                m.as_str(),
            ),
            ChronicleError::Renderer(m) => String::from_str("Renderer error: ").concat(m.as_str()),
            ChronicleError::Io(m) => String::from_str("IO error: ").concat(m.as_str()),
            ChronicleError::Git(m) => String::from_str("Git error: ").concat(m.as_str()),
            ChronicleError::TomlParse(m) => String::from_str("TOML parsing error: ").concat(
                m.as_str(),
            ),
            ChronicleError::Json(m) => String::from_str("JSON error: ").concat(m.as_str()),
        }
    }
}

} // verus!
