use vstd::prelude::*;

verus! {

/// A fatal condition, carrying the message shown to the user.
#[derive(Debug)]
pub struct AppError(pub String);

/// The message given when an input path does not exist.
pub open spec fn not_found_message(path: Seq<char>) -> Seq<char> {
    "file not found: "@ + path
}

impl AppError {
    /// The error for a missing input path.
    pub fn not_found(path: &str) -> (e: AppError)
        ensures
            e.0@ == not_found_message(path@),
    {
        let mut msg = String::from_str("file not found: ");
        msg.append(path);
        AppError(msg)
    }

    /// The message carried by this error.
    pub fn message(&self) -> (m: &str)
        ensures
            m@ == self.0@,
    {
        self.0.as_str()
    }
}

} // verus!
