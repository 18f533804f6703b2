use vstd::prelude::*;
use vstd::string::StringExecFns;

verus! {

/// Why a battle operation was refused.
#[derive(Debug, Clone, PartialEq, Eq)]
pub enum BattleError {
    InvalidBattlePet(String),
    InvalidTeam(String),
    InvalidAction(String),
    BattleAlreadyFinished,
}

/// A `BattleError` with its messages taken as character sequences.
pub enum BattleErrorView {
    InvalidBattlePet(Seq<char>),
    InvalidTeam(Seq<char>),
    InvalidAction(Seq<char>),
    BattleAlreadyFinished,
}

impl View for BattleError {
    type V = BattleErrorView;

    open spec fn view(&self) -> BattleErrorView {
        match self {
            BattleError::InvalidBattlePet(m) => BattleErrorView::InvalidBattlePet(m@),
            BattleError::InvalidTeam(m) => BattleErrorView::InvalidTeam(m@),
            BattleError::InvalidAction(m) => BattleErrorView::InvalidAction(m@),
            BattleError::BattleAlreadyFinished => BattleErrorView::BattleAlreadyFinished,
        }
    }
}

/// The text shown for an error.
pub open spec fn battle_error_text(e: BattleErrorView) -> Seq<char> {
    match e {
        BattleErrorView::InvalidBattlePet(m) => m,
        BattleErrorView::InvalidTeam(m) => m,
        BattleErrorView::InvalidAction(m) => m,
        BattleErrorView::BattleAlreadyFinished => "battle already finished"@,
    }
}

impl BattleError {
    /// The human-readable text of the error.
    pub fn message(&self) -> (s: String)
        ensures
            s@ == battle_error_text(self@),
    {
        match self {
            BattleError::InvalidBattlePet(m) => m.clone(),
            BattleError::InvalidTeam(m) => m.clone(),
            BattleError::InvalidAction(m) => m.clone(),
            BattleError::BattleAlreadyFinished => String::from_str("battle already finished"),
        }
    }
}

} // verus!
