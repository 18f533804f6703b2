use vstd::prelude::*;
use vstd::string::StringExecFns;

verus! {

/// Why the bestiary could not answer. Reading the bundle's files and database
/// happens outside the library; their failures arrive here as messages.
#[derive(Debug, Clone, PartialEq, Eq)]
pub enum BestiaryError {
    Io(String),
    Sqlite(String),
    MissingSpecies(String),
    InvalidPet(String),
}

/// A `BestiaryError` with its texts taken as character sequences.
pub enum BestiaryErrorView {
    Io(Seq<char>),
    Sqlite(Seq<char>),
    MissingSpecies(Seq<char>),
    InvalidPet(Seq<char>),
}

impl View for BestiaryError {
    type V = BestiaryErrorView;

    open spec fn view(&self) -> BestiaryErrorView {
        match self {
            BestiaryError::Io(m) => BestiaryErrorView::Io(m@),
            BestiaryError::Sqlite(m) => BestiaryErrorView::Sqlite(m@),
            BestiaryError::MissingSpecies(m) => BestiaryErrorView::MissingSpecies(m@),
            BestiaryError::InvalidPet(m) => BestiaryErrorView::InvalidPet(m@),
        }
    }
}

/// The text shown for an error.
pub open spec fn bestiary_error_text(e: BestiaryErrorView) -> Seq<char> {
    match e {
        BestiaryErrorView::Io(m) => m,
        BestiaryErrorView::Sqlite(m) => m,
        BestiaryErrorView::MissingSpecies(name) => "missing species data for "@ + name,
        BestiaryErrorView::InvalidPet(m) => m,
    }
}

impl BestiaryError {
    /// The human-readable text of the error.
    pub fn message(&self) -> (s: String)
        ensures
            s@ == bestiary_error_text(self@),
    {
        match self {
            BestiaryError::Io(m) => m.clone(),
            BestiaryError::Sqlite(m) => m.clone(),
            BestiaryError::MissingSpecies(name) => {
                let mut s = String::from_str("missing species data for ");
                s.append(name.as_str());
                s
            },
            BestiaryError::InvalidPet(m) => m.clone(),
        }
    }
}

} // verus!
