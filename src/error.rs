use vstd::prelude::*;

verus! {

/// The three ways an operation can fail.
#[derive(Debug, PartialEq, Eq, Clone, Copy, Structural)]
pub enum EnvError {
    /// Unsupported shell
    ShellError,
    /// IO Error (file or registry operation)
    IOError,
    /// Var error (can't get or set variable)
    VarError,
}

impl EnvError {
    /// The human-readable description of the error.
    pub fn message(&self) -> (r: String)
        ensures
            r@ == error_message(*self),
    {
        match self {
            EnvError::ShellError => String::from_str("Error: unsupported shell"),
            EnvError::IOError => String::from_str("Error: failed to perform I/O operation"),
            EnvError::VarError => String::from_str("Error: failed to get or set env variable"),
        }
    }
}

/// What [`EnvError::message`] returns for each kind.
pub open spec fn error_message(e: EnvError) -> Seq<char> {
    match e {
        EnvError::ShellError => "Error: unsupported shell"@,
        EnvError::IOError => "Error: failed to perform I/O operation"@,
        EnvError::VarError => "Error: failed to get or set env variable"@,
    }
}

} // verus!
