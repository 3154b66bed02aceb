//! The sign of life that the reading half of a connection gives the writing
//! half. The reader holds the sending end of a channel and never sends; when
//! the reader ends, the channel is disconnected, and the writer stops.

use std::sync::mpsc::Receiver;

use vstd::prelude::*;

verus! {

/// `std::sync::mpsc::Receiver`, the receiving end of a channel. It is only
/// carried through: nothing is said of what is in it.
#[verifier::external_type_specification]
#[verifier::external_body]
#[verifier::reject_recursive_types(T)]
pub struct ExReceiver<T>(Receiver<T>);

/// What a look into the channel found.
pub enum Pulse {
    /// A signal had been sent.
    Beat,
    /// Nothing had been sent, and the sending end is still held.
    Silent,
    /// Nothing had been sent, and the sending end is gone.
    Gone,
}

/// `Receiver::try_recv`, which does not wait. What it finds depends on what
/// the other end of the channel has done by now, so nothing is claimed of
/// the result.
#[verifier::external_body]
fn look(pulse_receiver: &Receiver<()>) -> Pulse {
    match pulse_receiver.try_recv() {
        Ok(_) => Pulse::Beat,
        Err(std::sync::mpsc::TryRecvError::Empty) => Pulse::Silent,
        Err(std::sync::mpsc::TryRecvError::Disconnected) => Pulse::Gone,
    }
}

/// Whether the writer is to go on after it found `pulse`: it stops only when
/// the sending end is gone.
pub fn alive(pulse: &Pulse) -> (on: bool)
    ensures
        on == !(pulse is Gone),
{
    match pulse {
        Pulse::Gone => false,
        _ => true,
    }
}

/// Looks into the channel and says whether the writer is to go on. It stops
/// only when the reader has dropped the sending end.
pub fn is_pulsing(pulse_receiver: &Receiver<()>) -> bool {
    let pulse = look(pulse_receiver);
    alive(&pulse)
}

} // verus!
