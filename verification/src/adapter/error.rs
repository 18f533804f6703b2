use vstd::prelude::*;
use vstd::string::StringExecFns;

use crate::battle::error::{battle_error_text, BattleError, BattleErrorView};
use crate::bestiary::error::{bestiary_error_text, BestiaryError, BestiaryErrorView};

verus! {

/// Why a species could not be turned into a battle pet.
#[derive(Debug, Clone, PartialEq, Eq)]
pub enum AdapterError {
    MissingMove(String),
    InvalidSelection(String),
    Battle(BattleError),
    Bestiary(BestiaryError),
}

/// An `AdapterError` with its texts taken as character sequences.
pub enum AdapterErrorView {
    MissingMove(Seq<char>),
    InvalidSelection(Seq<char>),
    Battle(BattleErrorView),
    Bestiary(BestiaryErrorView),
}

impl View for AdapterError {
    type V = AdapterErrorView;

    open spec fn view(&self) -> AdapterErrorView {
        match self {
            AdapterError::MissingMove(m) => AdapterErrorView::MissingMove(m@),
            AdapterError::InvalidSelection(m) => AdapterErrorView::InvalidSelection(m@),
            AdapterError::Battle(e) => AdapterErrorView::Battle(e@),
            AdapterError::Bestiary(e) => AdapterErrorView::Bestiary(e@),
        }
    }
}

/// The text shown for an error.
pub open spec fn adapter_error_text(e: AdapterErrorView) -> Seq<char> {
    match e {
        AdapterErrorView::MissingMove(id) => "missing move definition for "@ + id,
        AdapterErrorView::InvalidSelection(m) => m,
        AdapterErrorView::Battle(e) => battle_error_text(e),
        AdapterErrorView::Bestiary(e) => bestiary_error_text(e),
    }
}

impl AdapterError {
    /// The human-readable text of the error.
    pub fn message(&self) -> (s: String)
        ensures
            s@ == adapter_error_text(self@),
    {
        match self {
            AdapterError::MissingMove(id) => {
                let mut s = String::from_str("missing move definition for ");
                s.append(id.as_str());
                s
            },
            AdapterError::InvalidSelection(m) => m.clone(),
            AdapterError::Battle(e) => e.message(),
            AdapterError::Bestiary(e) => e.message(),
        }
    }
}

} // verus!
