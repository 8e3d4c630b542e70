use vstd::prelude::*;

verus! {

/// `std::io::Error`, the error of a failed read or write on a pipe; this crate
/// only carries it through.
#[verifier::external_type_specification]
#[verifier::external_body]
pub struct ExIoError(std::io::Error);

/// The sending end of a channel between two tasks.
pub trait Sender<T: Sized> {
    fn send(&mut self, msg: T) -> Result<(), std::io::Error>;
}

/// The receiving end of a channel between two tasks.
pub trait Receiver<T: Sized> {
    fn recv(&mut self) -> Result<T, std::io::Error>;
}

} // verus!
