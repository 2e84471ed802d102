//! Server assembly: initializes the record store, collects every controller's
//! registration pair into the route registry, then drains the registry into
//! the table of mounts. Attaching the mounts to a listener and serving
//! requests is the transport layer's business, outside this crate.

use vstd::prelude::*;
use crate::controller;
use crate::registry::{Endpoint, Registry};
use crate::store::{Account, AccountStorage};

verus! {

/// Builds the application state: a fresh, empty record store, and the full
/// mount table — here a single entry, the account controller's prefix with
/// its four endpoints. Registration of every controller completes before the
/// registry is drained, so no endpoint set is dropped.
pub fn assemble() -> (r: (AccountStorage, Vec<(String, Vec<Endpoint>)>))
    ensures
        r.0@ == Map::<usize, Account>::empty(),
        r.1@.len() == 1,
        (r.1@[0].0)@ == "/"@,
        controller::account_endpoints((r.1@[0].1)@),
{
    let storage = AccountStorage::new();
    let mut registry = Registry::new();
    let (prefix, eps) = controller::endpoints();
    let ghost eps_view = eps@;
    registry.register(prefix, eps);
    proof {
        assert(registry@.len() == 1);
        assert(registry.contains_prefix("/"@));
        let i = choose|i: int| 0 <= i < registry@.len() && (#[trigger] registry@[i]).0@ == "/"@;
        assert(i == 0);
        assert(registry.routes_for("/"@) == (registry@[0].1)@);
        assert((registry@[0].1)@ == eps_view);
    }
    let mounts = registry.drain_all();
    (storage, mounts)
}

} // verus!
