use vstd::prelude::*;

verus! {

/// The kinds of socket error that the relay tells apart.
#[derive(Clone, Copy, Debug, PartialEq, Eq, Structural)]
pub enum ErrorKind {
    ConnectionRefused,
    ConnectionAborted,
    ConnectionReset,
    /// Any other kind of failure.
    Other,
}

/// What an accept error says about the listener it came from.
#[derive(Clone, Copy, Debug, PartialEq, Eq, Structural)]
pub enum AppliesTo {
    /// This one accept failed; the listener is fine.
    Connection,
    /// The listener itself is broken.
    Listener,
}

/// The class of an error of kind `k`: refused, aborted and reset connections
/// concern the connection alone, everything else the listener.
pub open spec fn class_of(k: ErrorKind) -> AppliesTo {
    match k {
        ErrorKind::ConnectionRefused => AppliesTo::Connection,
        ErrorKind::ConnectionAborted => AppliesTo::Connection,
        ErrorKind::ConnectionReset => AppliesTo::Connection,
        ErrorKind::Other => AppliesTo::Listener,
    }
}

/// Classifies an accept error.
pub trait IoErrorExt {
    spec fn error_class(&self) -> AppliesTo;

    fn applies_to(&self) -> (r: AppliesTo)
        ensures
            r == self.error_class(),
    ;
}

impl IoErrorExt for ErrorKind {
    open spec fn error_class(&self) -> AppliesTo {
        class_of(*self)
    }

    fn applies_to(&self) -> (r: AppliesTo) {
        match self {
            ErrorKind::ConnectionRefused => AppliesTo::Connection,
            ErrorKind::ConnectionAborted => AppliesTo::Connection,
            ErrorKind::ConnectionReset => AppliesTo::Connection,
            ErrorKind::Other => AppliesTo::Listener,
        }
    }
}

} // verus!
