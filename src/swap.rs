use std::sync::Arc;
use vstd::prelude::*;

use crate::error::AppError;
use crate::router::{AppRouter, RouteRule};

verus! {

/// Relies on `Arc::clone`: the new handle points at the same value.
#[verifier::external_body]
fn share<T>(a: &Arc<T>) -> (r: Arc<T>)
    ensures
        *r == **a,
{
    Arc::clone(a)
}

/// A handle to the current snapshot of a value. `load` hands out a shared
/// reference to the snapshot; `swap` publishes a new one for later loads and
/// leaves snapshots already handed out untouched.
pub struct Swappable<T> {
    current: Arc<T>,
}

impl<T> Swappable<T> {
    /// The snapshot that `load` currently hands out.
    pub closed spec fn current(&self) -> T {
        *self.current
    }

    pub fn new(v: T) -> (r: Swappable<T>)
        ensures
            r.current() == v,
    {
        Swappable { current: Arc::new(v) }
    }

    /// The current snapshot.
    pub fn load(&self) -> (r: Arc<T>)
        ensures
            *r == self.current(),
    {
        share(&self.current)
    }

    /// Publishes `v` as the current snapshot and hands back the one it
    /// replaces, so that the caller decides where that one is released.
    pub fn swap(&mut self, v: T) -> (r: Arc<T>)
        ensures
            final(self).current() == v,
            *r == old(self).current(),
    {
        let prev = share(&self.current);
        self.current = Arc::new(v);
        prev
    }
}

/// A handle to the current route table of a tenant.
pub type SwappableAppRouter = Swappable<AppRouter>;

impl Swappable<AppRouter> {
    /// Builds a table from `rules` and holds it as the first snapshot.
    pub fn try_new(rules: &Vec<RouteRule>) -> (r: Result<Swappable<AppRouter>, AppError>)
        ensures
            match r {
                Ok(h) => crate::router::rules_valid(rules@) && h.current().built_from(rules@),
                Err(e) => !crate::router::rules_valid(rules@) && e == AppError::ConfigError,
            },
    {
        let t = AppRouter::try_new(rules)?;
        Ok(Swappable::new(t))
    }

    /// Builds a new table from `rules` and, only if that succeeds, publishes it.
    /// On failure the table in service stays as it was.
    pub fn swap_routes(&mut self, rules: &Vec<RouteRule>) -> (r: Result<(), AppError>)
        ensures
            match r {
                Ok(()) => crate::router::rules_valid(rules@) && final(self).current().built_from(
                    rules@,
                ),
                Err(e) => !crate::router::rules_valid(rules@) && e == AppError::ConfigError
                    && final(self).current() == old(self).current(),
            },
    {
        match AppRouter::try_new(rules) {
            Ok(t) => {
                let _ = self.swap(t);
                Ok(())
            },
            Err(e) => Err(e),
        }
    }
}

} // verus!
