//! The errors with which the program refuses a request.

use vstd::prelude::*;

verus! {

/// Why a record could not be read from, or written to, the data of an account.
#[derive(Debug, PartialEq, Eq)]
pub enum IoFault {
    /// A value of the record could not be read; what Borsh says of it.
    Unreadable(String),
    /// The data go on after the record.
    TrailingBytes,
    /// A string is longer than its four-byte length can say.
    TooLong,
    /// The account has no room for the record.
    NoRoom,
}

/// What [`IoFault`] stands for.
pub enum FaultView {
    Unreadable(Seq<char>),
    TrailingBytes,
    TooLong,
    NoRoom,
}

impl View for IoFault {
    type V = FaultView;

    open spec fn view(&self) -> FaultView {
        match self {
            IoFault::Unreadable(words) => FaultView::Unreadable(words@),
            IoFault::TrailingBytes => FaultView::TrailingBytes,
            IoFault::TooLong => FaultView::TooLong,
            IoFault::NoRoom => FaultView::NoRoom,
        }
    }
}

/// What a fault, or none, stands for.
pub open spec fn fault_view(fault: Option<IoFault>) -> Option<FaultView> {
    match fault {
        Some(fault) => Some(fault@),
        None => None,
    }
}

/// Why a request was refused.
#[derive(Debug, PartialEq, Eq)]
pub enum ProgramError {
    Custom(u32),
    InvalidArgument,
    InvalidInstructionData,
    MissingRequiredSignature,
    AccountAlreadyInitialized,
    NotEnoughAccountKeys,
    BorshIoError(IoFault),
    IllegalOwner,
    /// The host's own error, by its code.
    Runtime(u64),
}

/// What [`ProgramError`] stands for.
pub enum ErrorView {
    Custom(u32),
    InvalidArgument,
    InvalidInstructionData,
    MissingRequiredSignature,
    AccountAlreadyInitialized,
    NotEnoughAccountKeys,
    BorshIoError(FaultView),
    IllegalOwner,
    Runtime(u64),
}

impl View for ProgramError {
    type V = ErrorView;

    open spec fn view(&self) -> ErrorView {
        match self {
            ProgramError::Custom(code) => ErrorView::Custom(*code),
            ProgramError::InvalidArgument => ErrorView::InvalidArgument,
            ProgramError::InvalidInstructionData => ErrorView::InvalidInstructionData,
            ProgramError::MissingRequiredSignature => ErrorView::MissingRequiredSignature,
            ProgramError::AccountAlreadyInitialized => ErrorView::AccountAlreadyInitialized,
            ProgramError::NotEnoughAccountKeys => ErrorView::NotEnoughAccountKeys,
            ProgramError::BorshIoError(fault) => ErrorView::BorshIoError(fault@),
            ProgramError::IllegalOwner => ErrorView::IllegalOwner,
            ProgramError::Runtime(code) => ErrorView::Runtime(*code),
        }
    }
}

/// The errors that are this program's own.
#[derive(Clone, Copy, Debug, PartialEq, Eq, Structural)]
pub enum ReviewError {
    UninitializedAccount,
    InvalidPDA,
    InvalidDataLength,
    InvalidRating,
    IncorrectAccountError,
}

impl ReviewError {
    /// The number by which the host reports this error.
    pub open spec fn spec_code(self) -> u32 {
        match self {
            ReviewError::UninitializedAccount => 0,
            ReviewError::InvalidPDA => 1,
            ReviewError::InvalidDataLength => 2,
            ReviewError::InvalidRating => 3,
            ReviewError::IncorrectAccountError => 4,
        }
    }

    /// The number by which the host reports this error.
    pub fn code(self) -> (r: u32)
        ensures
            r == self.spec_code(),
    {
        match self {
            ReviewError::UninitializedAccount => 0,
            ReviewError::InvalidPDA => 1,
            ReviewError::InvalidDataLength => 2,
            ReviewError::InvalidRating => 3,
            ReviewError::IncorrectAccountError => 4,
        }
    }
}

impl From<ReviewError> for ProgramError {
    fn from(e: ReviewError) -> (r: ProgramError) {
        ProgramError::Custom(e.code())
    }
}

impl vstd::std_specs::convert::FromSpecImpl<ReviewError> for ProgramError {
    open spec fn obeys_from_spec() -> bool {
        true
    }

    open spec fn from_spec(e: ReviewError) -> ProgramError {
        ProgramError::Custom(e.spec_code())
    }
}

/// Two errors of the program are never reported by the same number.
pub proof fn law_error_codes_are_distinct(a: ReviewError, b: ReviewError)
    ensures
        a.spec_code() == b.spec_code() ==> a == b,
{
}

} // verus!
