use vstd::prelude::*;

verus! {

/// The ways an operation on the store, or on a command, can fail.
#[derive(Debug, Clone, PartialEq, Eq)]
pub enum FileError {
    NotFound(String),
    AlreadyExists(String),
    InvalidInput(String),
    AccessDenied(String),
    EmptyContent,
    InvalidId(u32),
}

impl FileError {
    /// The error says that no file is named `name`.
    pub open spec fn is_not_found(&self, name: Seq<char>) -> bool {
        self matches FileError::NotFound(n) && n@ == name
    }
}

/// The result of an operation on the store.
pub type FileResult<T> = Result<T, FileError>;

} // verus!
