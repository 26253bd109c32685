//! Handlers of signals, and the table that finds the handler of a signal.

use vstd::prelude::*;

verus! {

/// Something that takes note of a signal.
pub trait SignalHandler {
    /// Whether a signal has been noted and not yet been consumed.
    spec fn noted(&self) -> bool;

    /// Takes note of one delivery of the signal.
    fn handle(&mut self)
        ensures
            final(self).noted(),
    ;
}

/// The handlers of a process, by signal number: the handler of signal `n`
/// stands in slot `n - 1`, and a signal without handler has an empty slot.
pub struct SignalHandlerDispatcher<H: SignalHandler> {
    pub handlers: Vec<Option<H>>,
}

impl<H: SignalHandler> SignalHandlerDispatcher<H> {
    /// A table without any handler.
    pub fn new() -> (dispatcher: Self)
        ensures
            dispatcher.handlers@.len() == 0,
    {
        SignalHandlerDispatcher { handlers: Vec::new() }
    }

    /// Makes `handler` the handler of signal `signum`, in place of any earlier
    /// one. The table grows by empty slots up to that signal where it has to.
    pub fn register(&mut self, signum: i32, handler: H)
        requires
            signum >= 1,
        ensures
            final(self).handlers@.len() == if old(self).handlers@.len() < signum {
                signum as nat
            } else {
                old(self).handlers@.len()
            },
            final(self).handlers@[signum - 1] == Some(handler),
            forall|i: int|
                0 <= i < old(self).handlers@.len() && i != signum - 1 ==> final(self).handlers@[i]
                    == old(self).handlers@[i],
            forall|i: int|
                old(self).handlers@.len() <= i < signum - 1 ==> final(self).handlers@[i] is None,
    {
        let slot = (signum - 1) as usize;
        while self.handlers.len() <= slot
            invariant
                slot == signum - 1,
                old(self).handlers@.len() <= self.handlers@.len(),
                self.handlers@.len() <= slot + 1 || self.handlers@.len() == old(
                    self,
                ).handlers@.len(),
                forall|i: int|
                    0 <= i < old(self).handlers@.len() ==> self.handlers@[i] == old(
                        self,
                    ).handlers@[i],
                forall|i: int|
                    old(self).handlers@.len() <= i < self.handlers@.len()
                        ==> self.handlers@[i] is None,
            decreases slot + 1 - self.handlers@.len(),
        {
            self.handlers.push(None);
        }
        self.handlers.set(slot, Some(handler));
    }

    /// Hands one delivery of signal `signum` to its handler, if it has one.
    pub fn dispatch(&mut self, signum: i32)
        requires
            1 <= signum <= old(self).handlers@.len(),
        ensures
            final(self).handlers@.len() == old(self).handlers@.len(),
            forall|i: int|
                0 <= i < old(self).handlers@.len() && i != signum - 1 ==> final(self).handlers@[i]
                    == old(self).handlers@[i],
            old(self).handlers@[signum - 1] is None ==> final(self).handlers@[signum - 1] is None,
            old(self).handlers@[signum - 1] is Some ==> final(self).handlers@[signum - 1] is Some
                && final(self).handlers@[signum - 1].unwrap().noted(),
    {
        let slot = (signum - 1) as usize;
        let mut taken: Option<H> = None;
        self.handlers.set_and_swap(slot, &mut taken);
        match taken {
            Some(mut handler) => {
                handler.handle();
                self.handlers.set(slot, Some(handler));
            },
            None => {},
        }
    }
}

} // verus!
