use vstd::prelude::*;

verus! {

/// Errors surfaced by the proxy.
#[derive(Debug)]
pub enum Error {
    /// I/O failure, carried as its message text.
    Io(String),
    /// HTTP protocol failure, carried as its message text.
    Hyper(String),
    /// TLS failure, carried as its message text.
    Rustls(String),
    /// Invalid configuration discovered at startup.
    Config(String),
}

/// The message text an error carries.
pub open spec fn spec_message(e: &Error) -> Seq<char> {
    match e {
        Error::Io(m) => m@,
        Error::Hyper(m) => m@,
        Error::Rustls(m) => m@,
        Error::Config(m) => m@,
    }
}

/// Builds the I/O error used for failures while loading TLS material.
pub fn error(err: String) -> (r: Error)
    ensures
        r matches Error::Io(m) && m@ == err@,
{
    Error::Io(err)
}

impl Error {
    /// A short description, in place of `Display`.
    pub fn message(&self) -> (r: &String)
        ensures
            r@ == spec_message(self),
    {
        match self {
            Error::Io(m) => m,
            Error::Hyper(m) => m,
            Error::Rustls(m) => m,
            Error::Config(m) => m,
        }
    }
}

} // verus!
