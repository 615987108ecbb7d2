use vstd::prelude::*;

use arc_swap::ArcSwap;
use std::sync::Arc;

verus! {

/// The atomically swapped pointer behind a `Shared` cell. Verus cannot
/// declare `ArcSwap` itself (its default strategy is a private type of
/// arc_swap), so it is held here out of Verus's sight.
#[derive(Debug)]
#[verifier::external_body]
#[verifier::reject_recursive_types(T)]
struct SwapCell<T> {
    cell: ArcSwap<T>,
}

/// One snapshot of a `Shared` cell: it keeps that value alive and
/// dereferences to it, whatever is stored in the cell afterwards.
pub type GuardArc<T> = Arc<T>;

/// Relies on arc_swap::ArcSwap::from_pointee: a cell whose first snapshot is `value`.
#[verifier::external_body]
fn swap_cell<T>(value: T) -> SwapCell<T> {
    SwapCell { cell: ArcSwap::from_pointee(value) }
}

/// Relies on arc_swap::ArcSwapAny::load_full: the snapshot current at the
/// call, taken without blocking.
#[verifier::external_body]
fn swap_load<T>(cell: &SwapCell<T>) -> GuardArc<T> {
    cell.cell.load_full()
}

/// Relies on arc_swap::ArcSwapAny::store: installs `value` as the whole new
/// snapshot; guards taken before keep their own.
#[verifier::external_body]
fn swap_store<T>(cell: &SwapCell<T>, value: T) {
    cell.cell.store(Arc::new(value))
}

/// Relies on arc_swap::ArcSwapAny::rcu: computes a new snapshot from the
/// current one and installs it only if no other write came in between,
/// computing again from the newer snapshot otherwise.
#[verifier::external_body]
fn swap_rcu<T: Clone, F: Fn(&mut T)>(cell: &SwapCell<T>, f: &F)
    requires
        forall|x: &mut T| #[trigger] f.requires((x,)),
{
    cell.cell.rcu(|current: &Arc<T>| updated_copy(f, current));
}

/// A copy of `current` with `f` applied to it; `current` itself is untouched.
fn updated_copy<T: Clone, F: Fn(&mut T)>(f: &F, current: &T) -> T
    requires
        forall|x: &mut T| #[trigger] f.requires((x,)),
{
    let mut next = current.clone();
    f(&mut next);
    next
}

/// A lock-free cell holding one immutable snapshot, shared by all its clones.
///
/// Readers take guards on the current snapshot without waiting; a write
/// replaces the whole snapshot at once, so no reader sees it half made.
#[derive(Debug, Clone)]
#[verifier::reject_recursive_types(T)]
pub struct Shared<T> {
    inner: Arc<SwapCell<T>>,
}

impl<T> Shared<T> {
    /// A cell whose first snapshot is `data`.
    pub fn new(data: T) -> Self {
        Shared { inner: Arc::new(swap_cell(data)) }
    }

    /// A guard on the snapshot current at the call.
    pub fn load(&self) -> GuardArc<T> {
        swap_load(&self.inner)
    }

    /// Installs `data` as the new snapshot.
    pub fn store(&self, data: T) {
        swap_store(&self.inner, data)
    }
}

impl<T: Clone> Shared<T> {
    /// Read-copy-update: clones the current snapshot, applies `f` to the copy
    /// and installs it, running `f` again on the newer snapshot when another
    /// writer got in first. `f` must therefore be a pure function of the value.
    pub fn update<F: Fn(&mut T)>(&self, f: F)
        requires
            forall|x: &mut T| #[trigger] f.requires((x,)),
    {
        swap_rcu(&self.inner, &f)
    }
}

} // verus!
