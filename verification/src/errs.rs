//! The errors of the actor system. Errors that come from I/O or from a serialisation
//! format carry that error's text.
use vstd::prelude::*;

verus! {

/// An error while defining, restoring or messaging actors.
#[derive(PartialEq, Eq, Clone, Debug)]
pub enum Error {
    /// An I/O error during registration.
    Registration(String),
    /// An error while sending or receiving messages.
    MsgSendError(String),
    /// A JSON (de)serialisation error.
    SerdeJson(String),
    /// Any other error.
    Other(String),
    /// An invalid payload.
    InvalidData,
    /// A registration that failed for a reason other than I/O.
    RegistrationError,
    /// An actor could not be brought back from the backing store.
    RestorationError,
    /// An actor could not be reloaded from its stored definition.
    ActorReloadError,
    /// A bincode (de)serialisation error.
    Bincode(String),
}

} // verus!
