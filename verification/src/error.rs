//! The errors of the executor.
use vstd::prelude::*;

verus! {

/// Why a request could not be prepared or a response could not be understood.
#[derive(Debug)]
pub enum ByokError {
    /// The settings are not usable.
    Config(String),
    /// A request or a response could not be translated.
    Translation(String),
}

/// What a [`ByokError`] is.
pub enum ByokErrorView {
    Config(Seq<char>),
    Translation(Seq<char>),
}

impl View for ByokError {
    type V = ByokErrorView;

    open spec fn view(&self) -> ByokErrorView {
        match self {
            ByokError::Config(text) => ByokErrorView::Config(text@),
            ByokError::Translation(text) => ByokErrorView::Translation(text@),
        }
    }
}

} // verus!
