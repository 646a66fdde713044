//! Tells whether a loop should continue.

use vstd::prelude::*;

verus! {

/// Tells whether the loop should continue
pub enum Running<T, E = ()> {
    /// Continue running
    Continue(T),
    /// Stop running
    Stop(E),
}

/// The answer of `handle_result` when the implementer gives it no body of
/// its own: go on.
pub open spec fn default_handled<S>() -> Running<(), S> {
    Running::Continue(())
}

/// What `handle_result` does unless the implementer gives it a body of its
/// own: whatever `op` returned, the loop goes on.
pub fn default_handle_result<T, E, S>(_res: Result<T, E>) -> (r: Running<(), S>)
    ensures
        r == default_handled::<S>(),
{
    Running::Continue(())
}

/// `Some` becomes `Continue`, `None` becomes `Stop`.
pub open spec fn option_to_running<T>(val: Option<T>) -> Running<T> {
    match val {
        Some(inner) => Running::Continue(inner),
        None => Running::Stop(()),
    }
}

/// `Continue` becomes `Some`, `Stop` becomes `None`.
pub open spec fn running_to_option<T, E>(val: Running<T, E>) -> Option<T> {
    match val {
        Running::Continue(inner) => Some(inner),
        Running::Stop(_) => None,
    }
}

impl<T> From<Option<T>> for Running<T> {
    fn from(val: Option<T>) -> (r: Self) {
        match val {
            Some(inner) => Running::Continue(inner),
            None => Running::Stop(()),
        }
    }
}

impl<T> vstd::std_specs::convert::FromSpecImpl<Option<T>> for Running<T> {
    open spec fn obeys_from_spec() -> bool {
        true
    }

    open spec fn from_spec(v: Option<T>) -> Self {
        option_to_running(v)
    }
}

impl<T, E> From<Result<T, E>> for Running<Result<T, E>> {
    fn from(res: Result<T, E>) -> (r: Self) {
        Running::Continue(res)
    }
}

impl<T, E> vstd::std_specs::convert::FromSpecImpl<Result<T, E>> for Running<Result<T, E>> {
    open spec fn obeys_from_spec() -> bool {
        true
    }

    open spec fn from_spec(v: Result<T, E>) -> Self {
        Running::Continue(v)
    }
}

impl<T> From<Running<T>> for Option<T> {
    fn from(val: Running<T>) -> (r: Self) {
        match val {
            Running::Continue(inner) => Some(inner),
            Running::Stop(_) => None,
        }
    }
}

impl<T> vstd::std_specs::convert::FromSpecImpl<Running<T>> for Option<T> {
    open spec fn obeys_from_spec() -> bool {
        true
    }

    open spec fn from_spec(v: Running<T>) -> Self {
        running_to_option(v)
    }
}

/// Turning an `Option` into a `Running` and back gives the `Option` again.
pub proof fn lemma_option_round_trip<T>(val: Option<T>)
    ensures
        running_to_option(option_to_running(val)) == val,
{
}

/// Turning a `Running` that stops with `()` into an `Option` and back gives
/// the `Running` again.
pub proof fn lemma_running_round_trip<T>(val: Running<T>)
    ensures
        option_to_running(running_to_option(val)) == val,
{
    match val {
        Running::Continue(_) => {},
        Running::Stop(u) => {
            assert(u == ());
        },
    }
}

} // verus!
