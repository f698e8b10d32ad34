use vstd::prelude::*;

verus! {

/// A byte from `rand::random::<u8>()`, drawn from the thread-local
/// generator. Nothing is stated of its value: any byte may come back, and
/// two calls may differ. (The generator panics if the operating system
/// cannot seed it; no clause here can rule that out.)
#[verifier::external_body]
pub(crate) fn random_byte() -> (byte: u8) {
    rand::random::<u8>()
}

} // verus!
