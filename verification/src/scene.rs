use vstd::prelude::*;

verus! {

#[verifier::external_type_specification]
#[verifier::external_body]
pub struct ExAnyhowError(anyhow::Error);

/// The outcome of a scene conversion, as the command line tool reports it.
pub enum CliResult {
    Success(String),
    Error(anyhow::Error),
}

impl CliResult {
    /// The converted scene on success, the error otherwise.
    pub fn from_result(result: Result<String, anyhow::Error>) -> (r: CliResult)
        ensures
            match result {
                Ok(s) => r matches CliResult::Success(t) && t@ == s@,
                Err(e) => r matches CliResult::Error(f) && f == e,
            },
    {
        match result {
            Ok(success) => CliResult::Success(success),
            Err(e) => CliResult::Error(e),
        }
    }
}

} // verus!
