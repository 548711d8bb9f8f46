//! Resolving codes: a lookup in the store, with no policy of its own.

use vstd::prelude::*;
use crate::failure::{text_view, Failure};
use crate::store::{lookup_answer, MemoryStore};

verus! {

/// The target stored under `id`, exactly as it was stored, or `NotFound`.
/// The answer depends on the store's table and on `id` alone, and the store
/// is not changed: asking again gives the same answer.
pub fn resolve(store: &MemoryStore, id: &str) -> (r: Result<String, Failure>)
    ensures
        text_view(r) == lookup_answer(store@, id@),
{
    store.lookup(id)
}

} // verus!
