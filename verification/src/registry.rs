//! The route registry: a write-then-read table from path prefix to an ordered
//! sequence of endpoint descriptors.
//!
//! Controllers publish their endpoint sets during startup through `register`;
//! server assembly then calls `drain_all` exactly once, which hands the full
//! table over for mounting and closes the registry. A prefix registered twice
//! overwrites the earlier entry (last write wins). Writes after the drain are
//! disallowed (`register` demands an accepting registry), and concurrent
//! registration is serialized by the same `&mut` exclusive-access discipline
//! as the record store.

use vstd::prelude::*;

verus! {

/// An HTTP-style request method, as far as the endpoint table needs one.
#[derive(Clone, Copy, PartialEq, Eq, Structural, Debug)]
pub enum Method {
    Get,
    Post,
    Put,
    Delete,
}

/// One endpoint descriptor: a method, a path pattern relative to the
/// controller's prefix, and the name of the handler to attach.
#[derive(Debug)]
pub struct Endpoint {
    pub method: Method,
    pub path: String,
    pub handler: String,
}

impl Clone for Endpoint {
    fn clone(&self) -> (res: Self)
        ensures
            res == *self,
    {
        Endpoint {
            method: self.method,
            path: self.path.clone(),
            handler: self.handler.clone(),
        }
    }
}

/// The registry itself: its abstract value is the sequence of
/// (prefix, endpoints) entries in registration order.
pub struct Registry {
    entries: Vec<(String, Vec<Endpoint>)>,
    open: bool,
}

impl View for Registry {
    type V = Seq<(String, Vec<Endpoint>)>;

    closed spec fn view(&self) -> Seq<(String, Vec<Endpoint>)> {
        self.entries@
    }
}

impl Registry {
    /// Whether the registry still accepts writes (it has not been drained).
    pub closed spec fn accepting(self) -> bool {
        self.open
    }

    /// Well-formedness: no two entries share a prefix.
    pub open spec fn wf(self) -> bool {
        forall|i: int, j: int|
            0 <= i < j < self@.len() ==> (#[trigger] self@[i]).0@ != (#[trigger] self@[j]).0@
    }

    /// Whether some entry is registered under prefix `p`.
    pub open spec fn contains_prefix(self, p: Seq<char>) -> bool {
        exists|i: int| 0 <= i < self@.len() && (#[trigger] self@[i]).0@ == p
    }

    /// The endpoint sequence registered under prefix `p`; meaningful when
    /// `contains_prefix(p)` holds (well-formedness makes the entry unique).
    pub open spec fn routes_for(self, p: Seq<char>) -> Seq<Endpoint>
        recommends
            self.contains_prefix(p),
    {
        (self@[choose|i: int| 0 <= i < self@.len() && (#[trigger] self@[i]).0@ == p].1)@
    }

    /// An empty registry, accepting writes.
    pub fn new() -> (r: Self)
        ensures
            r@ == Seq::<(String, Vec<Endpoint>)>::empty(),
            r.accepting(),
            r.wf(),
    {
        Registry { entries: Vec::new(), open: true }
    }

    /// Publishes `endpoints` under `prefix`, overwriting any entry already
    /// registered under the same prefix and leaving every other prefix
    /// untouched. Only an accepting (not yet drained) registry may be written.
    pub fn register(&mut self, prefix: String, endpoints: Vec<Endpoint>)
        requires
            old(self).accepting(),
            old(self).wf(),
        ensures
            final(self).accepting(),
            final(self).wf(),
            register_step(*old(self), *final(self), prefix@, endpoints@),
    {
        let ghost pre = *self;
        let mut i: usize = 0;
        while i < self.entries.len()
            invariant
                *self == pre,
                pre == *old(self),
                pre.wf(),
                pre.accepting(),
                0 <= i <= self.entries@.len(),
                forall|j: int| 0 <= j < i ==> (#[trigger] self.entries@[j]).0@ != prefix@,
            decreases self.entries@.len() - i,
        {
            if self.entries[i].0 == prefix {
                self.entries.set(i, (prefix, endpoints));
                proof {
                    lemma_register_replaces(pre, *self, i as int, prefix@, endpoints@);
                }
                return;
            }
            i += 1;
        }
        self.entries.push((prefix, endpoints));
        proof {
            lemma_register_appends(pre, *self, prefix@, endpoints@);
        }
    }

    /// Hands the full table of (prefix, endpoints) entries over for mounting
    /// and closes the registry: afterwards it is empty and no longer accepts
    /// writes. Called exactly once, after every controller has registered.
    pub fn drain_all(&mut self) -> (r: Vec<(String, Vec<Endpoint>)>)
        requires
            old(self).accepting(),
        ensures
            r@ == old(self)@,
            !final(self).accepting(),
            final(self)@.len() == 0,
    {
        self.open = false;
        let mut out: Vec<(String, Vec<Endpoint>)> = Vec::new();
        std::mem::swap(&mut self.entries, &mut out);
        out
    }
}

/// How one `register` call relates the registry before the call to the
/// registry after it: the written prefix now maps to exactly the endpoints
/// handed in (last write wins), every other prefix keeps its presence and its
/// endpoints, and the entry count grows by one exactly when the prefix was
/// new.
pub open spec fn register_step(
    pre: Registry,
    post: Registry,
    prefix: Seq<char>,
    eps: Seq<Endpoint>,
) -> bool {
    &&& post.contains_prefix(prefix)
    &&& post.routes_for(prefix) == eps
    &&& forall|p: Seq<char>|
        p != prefix ==> #[trigger] post.contains_prefix(p) == pre.contains_prefix(p)
    &&& forall|p: Seq<char>|
        p != prefix && pre.contains_prefix(p) ==> #[trigger] post.routes_for(p)
            == pre.routes_for(p)
    &&& post@.len() == pre@.len() + (if pre.contains_prefix(prefix) { 0int } else { 1int })
}

/// In a well-formed registry the entry holding a prefix is unique, so the
/// routes looked up for that prefix are the ones at any index that holds it.
proof fn lemma_routes_at_index(r: Registry, p: Seq<char>, i: int)
    requires
        r.wf(),
        0 <= i < r@.len(),
        r@[i].0@ == p,
    ensures
        r.contains_prefix(p),
        r.routes_for(p) == (r@[i].1)@,
{
    assert(r.contains_prefix(p));
    let j = choose|j: int| 0 <= j < r@.len() && (#[trigger] r@[j]).0@ == p;
    if i < j {
        assert(r@[i].0@ != r@[j].0@);
    } else if j < i {
        assert(r@[j].0@ != r@[i].0@);
    }
}

/// Overwriting the unique entry that held `prefix` is one `register` step and
/// keeps the registry well-formed.
proof fn lemma_register_replaces(
    pre: Registry,
    post: Registry,
    i: int,
    prefix: Seq<char>,
    eps: Seq<Endpoint>,
)
    requires
        pre.wf(),
        0 <= i < pre@.len(),
        pre@[i].0@ == prefix,
        forall|j: int| 0 <= j < i ==> (#[trigger] pre@[j]).0@ != prefix,
        post@.len() == pre@.len(),
        post@[i].0@ == prefix,
        (post@[i].1)@ == eps,
        forall|j: int| 0 <= j < pre@.len() && j != i ==> post@[j] == pre@[j],
    ensures
        post.wf(),
        register_step(pre, post, prefix, eps),
{
    assert forall|a: int, b: int| 0 <= a < b < post@.len() implies (#[trigger] post@[a]).0@
        != (#[trigger] post@[b]).0@ by {
        if a != i && b != i {
            assert(pre@[a].0@ != pre@[b].0@);
        } else if a == i {
            assert(pre@[i].0@ != pre@[b].0@);
        } else {
            assert(pre@[a].0@ != pre@[i].0@);
        }
    }
    lemma_routes_at_index(post, prefix, i);
    lemma_routes_at_index(pre, prefix, i);
    assert forall|p: Seq<char>| p != prefix implies #[trigger] post.contains_prefix(p)
        == pre.contains_prefix(p) by {
        if post.contains_prefix(p) {
            let k = choose|k: int| 0 <= k < post@.len() && (#[trigger] post@[k]).0@ == p;
            assert(k != i);
            assert(pre@[k].0@ == p);
        }
        if pre.contains_prefix(p) {
            let k = choose|k: int| 0 <= k < pre@.len() && (#[trigger] pre@[k]).0@ == p;
            assert(k != i);
            assert(post@[k].0@ == p);
        }
    }
    assert forall|p: Seq<char>| p != prefix && pre.contains_prefix(p) implies
        #[trigger] post.routes_for(p) == pre.routes_for(p) by {
        let k = choose|k: int| 0 <= k < pre@.len() && (#[trigger] pre@[k]).0@ == p;
        assert(k != i);
        lemma_routes_at_index(pre, p, k);
        lemma_routes_at_index(post, p, k);
    }
}

/// Controllers that register disjoint prefixes lose nothing to each other:
/// after one controller registers under `p1` and a second under a different
/// `p2`, both prefixes are present with exactly the endpoint sets their
/// controllers handed in — `drain_all` then hands the table over unchanged,
/// so both endpoint sets are mountable and neither is dropped.
pub proof fn lemma_disjoint_registrations_kept(
    r0: Registry,
    r1: Registry,
    r2: Registry,
    p1: Seq<char>,
    e1: Seq<Endpoint>,
    p2: Seq<char>,
    e2: Seq<Endpoint>,
)
    requires
        register_step(r0, r1, p1, e1),
        register_step(r1, r2, p2, e2),
        p1 != p2,
    ensures
        r2.contains_prefix(p1),
        r2.routes_for(p1) == e1,
        r2.contains_prefix(p2),
        r2.routes_for(p2) == e2,
{
    assert(r2.contains_prefix(p1) == r1.contains_prefix(p1));
    assert(r2.routes_for(p1) == r1.routes_for(p1));
}

/// Appending an entry for a prefix that no entry held is one `register` step
/// and keeps the registry well-formed.
proof fn lemma_register_appends(pre: Registry, post: Registry, prefix: Seq<char>, eps: Seq<Endpoint>)
    requires
        pre.wf(),
        forall|j: int| 0 <= j < pre@.len() ==> (#[trigger] pre@[j]).0@ != prefix,
        post@.len() == pre@.len() + 1,
        post@[pre@.len() as int].0@ == prefix,
        (post@[pre@.len() as int].1)@ == eps,
        forall|j: int| 0 <= j < pre@.len() ==> post@[j] == pre@[j],
    ensures
        post.wf(),
        register_step(pre, post, prefix, eps),
{
    let n = pre@.len() as int;
    assert forall|a: int, b: int| 0 <= a < b < post@.len() implies (#[trigger] post@[a]).0@
        != (#[trigger] post@[b]).0@ by {
        if b < n {
            assert(pre@[a].0@ != pre@[b].0@);
        } else {
            assert(pre@[a].0@ != prefix);
        }
    }
    assert(!pre.contains_prefix(prefix));
    lemma_routes_at_index(post, prefix, n);
    assert forall|p: Seq<char>| p != prefix implies #[trigger] post.contains_prefix(p)
        == pre.contains_prefix(p) by {
        if post.contains_prefix(p) {
            let k = choose|k: int| 0 <= k < post@.len() && (#[trigger] post@[k]).0@ == p;
            assert(k != n);
            assert(pre@[k].0@ == p);
        }
        if pre.contains_prefix(p) {
            let k = choose|k: int| 0 <= k < pre@.len() && (#[trigger] pre@[k]).0@ == p;
            assert(post@[k].0@ == p);
        }
    }
    assert forall|p: Seq<char>| p != prefix && pre.contains_prefix(p) implies
        #[trigger] post.routes_for(p) == pre.routes_for(p) by {
        let k = choose|k: int| 0 <= k < pre@.len() && (#[trigger] pre@[k]).0@ == p;
        lemma_routes_at_index(pre, p, k);
        lemma_routes_at_index(post, p, k);
    }
}

} // verus!
