use vstd::prelude::*;

verus! {

/// Decomposition of a short-circuit carrier: go on with a payload, or stop
/// early with an abort payload.
pub enum Flow<B, C> {
    Continue(C),
    Break(B),
}

/// A generic short-circuit carrier: any type that can be decomposed into
/// "continue with a value" or "stop with an abort payload" and rebuilt
/// from either side. One traversal written against this contract serves
/// strict folding, best-effort buffering, and backpressure-aware emission.
pub trait Try: Sized {
    type Break;

    type Continue;

    /// The decomposition this carrier denotes.
    spec fn flow(self) -> Flow<Self::Break, Self::Continue>;

    fn branch(self) -> (r: Flow<Self::Break, Self::Continue>)
        ensures
            r == self.flow(),
    ;

    fn from_break(b: Self::Break) -> (r: Self)
        ensures
            r.flow() == Flow::<Self::Break, Self::Continue>::Break(b),
    ;

    fn from_continue(c: Self::Continue) -> (r: Self)
        ensures
            r.flow() == Flow::<Self::Break, Self::Continue>::Continue(c),
    ;
}

/// Success or failure: the abort payload is the failure reason.
impl<T, E> Try for Result<T, E> {
    type Break = E;

    type Continue = T;

    open spec fn flow(self) -> Flow<E, T> {
        match self {
            Ok(t) => Flow::Continue(t),
            Err(e) => Flow::Break(e),
        }
    }

    fn branch(self) -> (r: Flow<E, T>) {
        match self {
            Ok(t) => Flow::Continue(t),
            Err(e) => Flow::Break(e),
        }
    }

    fn from_break(b: E) -> (r: Self) {
        Err(b)
    }

    fn from_continue(c: T) -> (r: Self) {
        Ok(c)
    }
}

/// Present or absent: aborting carries no information.
impl<T> Try for Option<T> {
    type Break = ();

    type Continue = T;

    open spec fn flow(self) -> Flow<(), T> {
        match self {
            Some(t) => Flow::Continue(t),
            None => Flow::Break(()),
        }
    }

    fn branch(self) -> (r: Flow<(), T>) {
        match self {
            Some(t) => Flow::Continue(t),
            None => Flow::Break(()),
        }
    }

    fn from_break(b: ()) -> (r: Self) {
        None
    }

    fn from_continue(c: T) -> (r: Self) {
        Some(c)
    }
}

/// One step of an emission driven by an asynchronous sink: a value is
/// ready, or the step failed, or the sink is not ready yet — in which
/// case the same traversal position must be offered its event again on
/// the next poll.
pub enum Step<T, E> {
    Ready(T),
    Failed(E),
    Pending,
}

/// Why a `Step` stopped early: a failure, or the sink not being ready.
pub enum Stall<E> {
    Failed(E),
    Pending,
}

impl<T, E> Try for Step<T, E> {
    type Break = Stall<E>;

    type Continue = T;

    open spec fn flow(self) -> Flow<Stall<E>, T> {
        match self {
            Step::Ready(t) => Flow::Continue(t),
            Step::Failed(e) => Flow::Break(Stall::Failed(e)),
            Step::Pending => Flow::Break(Stall::Pending),
        }
    }

    fn branch(self) -> (r: Flow<Stall<E>, T>) {
        match self {
            Step::Ready(t) => Flow::Continue(t),
            Step::Failed(e) => Flow::Break(Stall::Failed(e)),
            Step::Pending => Flow::Break(Stall::Pending),
        }
    }

    fn from_break(b: Stall<E>) -> (r: Self) {
        match b {
            Stall::Failed(e) => Step::Failed(e),
            Stall::Pending => Step::Pending,
        }
    }

    fn from_continue(c: T) -> (r: Self) {
        Step::Ready(c)
    }
}

} // verus!
