//! Why an activity statement could not be read.
use vstd::prelude::*;

verus! {

pub enum IbkrError {
    /// A data row of a section whose header row has not appeared.
    MissingHeader { section: String },
    /// A date that does not parse, with the section it belongs to.
    BadDate { section: String, value: String },
    /// An amount that does not parse, with the section it belongs to.
    BadAmount { section: String, value: String },
    /// The identifier remapping loops from this identifier (the chain of
    /// merged listings never ends).
    InstrumentIdCycle { id: String },
}

pub enum IbkrErrorV {
    MissingHeader(Seq<char>),
    BadDate(Seq<char>, Seq<char>),
    BadAmount(Seq<char>, Seq<char>),
    InstrumentIdCycle(Seq<char>),
}

impl View for IbkrError {
    type V = IbkrErrorV;

    open spec fn view(&self) -> IbkrErrorV {
        match self {
            IbkrError::MissingHeader { section } => IbkrErrorV::MissingHeader(section@),
            IbkrError::BadDate { section, value } => IbkrErrorV::BadDate(section@, value@),
            IbkrError::BadAmount { section, value } => IbkrErrorV::BadAmount(section@, value@),
            IbkrError::InstrumentIdCycle { id } => IbkrErrorV::InstrumentIdCycle(id@),
        }
    }
}

} // verus!
