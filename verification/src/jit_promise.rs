use vstd::prelude::*;

use crate::ast::{AstNode, AstSpec, nodes_eq, nodes_view};
use crate::jit_target::JITTarget;

verus! {

broadcast use vstd::std_specs::vec::group_vec_axioms;

/// Stable name of a deferred loop body.
#[derive(Clone, Copy, Debug, PartialEq, Eq, Structural)]
pub struct JITPromiseID {
    id: u16,
}

impl JITPromiseID {
    pub closed spec fn spec_value(self) -> u16 {
        self.id
    }

    pub fn new(id: u16) -> (r: JITPromiseID)
        ensures
            r.spec_value() == id,
    {
        JITPromiseID { id }
    }

    pub fn value(self) -> (r: u16)
        ensures
            r == self.spec_value(),
    {
        self.id
    }
}

/// Holds a loop body for later compilation, or the code it compiled to.
pub enum JITPromise {
    Deferred(Vec<AstNode>),
    Compiled(JITTarget),
}

/// Mathematical counterpart of `JITPromise`.
pub enum PromiseSpec {
    Deferred(Seq<AstSpec>),
    Compiled(Seq<AstSpec>, Seq<u8>),
}

/// Abstraction of one promise.
pub open spec fn promise_view(p: JITPromise) -> PromiseSpec {
    match p {
        JITPromise::Deferred(nodes) => PromiseSpec::Deferred(nodes_view(nodes@)),
        JITPromise::Compiled(t) => PromiseSpec::Compiled(nodes_view(t.source@), t.code@),
    }
}

/// The loop body a promise was made for.
pub open spec fn promise_source(p: PromiseSpec) -> Seq<AstSpec> {
    match p {
        PromiseSpec::Deferred(s) => s,
        PromiseSpec::Compiled(s, _) => s,
    }
}

/// Abstraction of a pool of promise slots.
pub open spec fn pool_view(v: Seq<Option<JITPromise>>) -> Seq<Option<PromiseSpec>> {
    Seq::new(
        v.len(),
        |i: int|
            if 0 <= i < v.len() {
                match v[i] {
                    Some(p) => Some(promise_view(p)),
                    None => None,
                }
            } else {
                None
            },
    )
}

impl JITPromise {
    /// The loop body this promise was made for.
    pub fn source(&self) -> (r: &Vec<AstNode>)
        ensures
            nodes_view(r@) == promise_source(promise_view(*self)),
    {
        match self {
            JITPromise::Deferred(source) => source,
            JITPromise::Compiled(t) => &t.source,
        }
    }
}

/// The first slot at or after `i` holding a promise for `body`.
pub open spec fn find_match(pool: Seq<Option<PromiseSpec>>, body: Seq<AstSpec>, i: int) -> Option<
    int,
>
    decreases pool.len() - i,
{
    if i < 0 || i >= pool.len() {
        None
    } else {
        match pool[i] {
            Some(p) => if promise_source(p) == body {
                Some(i)
            } else {
                find_match(pool, body, i + 1)
            },
            // A None slot is a promise checked out for execution; it cannot
            // match, because a loop body cannot contain itself (Brainfuck
            // has no recursion).
            None => find_match(pool, body, i + 1),
        }
    }
}

/// What `PromiseSet::add` does: return the first matching slot, or append a
/// new deferred promise.
pub open spec fn add_spec(pool: Seq<Option<PromiseSpec>>, body: Seq<AstSpec>) -> (
    Seq<Option<PromiseSpec>>,
    int,
) {
    match find_match(pool, body, 0) {
        Some(i) => (pool, i),
        None => (pool.push(Some(PromiseSpec::Deferred(body))), pool.len() as int),
    }
}

/// The global set of promises for a program.
pub struct PromiseSet {
    pub promises: Vec<Option<JITPromise>>,
}

impl PromiseSet {
    pub open spec fn view_pool(&self) -> Seq<Option<PromiseSpec>> {
        pool_view(self.promises@)
    }

    pub fn new() -> (r: PromiseSet)
        ensures
            r.view_pool() =~= Seq::<Option<PromiseSpec>>::empty(),
    {
        PromiseSet { promises: Vec::new() }
    }

    /// By either searching for an equivalent promise, or creating a new one,
    /// return a promise ID for a loop body.  IDs fit in sixteen bits; the
    /// caller keeps the pool below that bound.
    #[verifier::loop_isolation(false)]
    pub fn add(&mut self, nodes: Vec<AstNode>) -> (r: JITPromiseID)
        requires
            old(self).view_pool().len() < 0x10000,
        ensures
            ({
                let (pool2, id) = add_spec(old(self).view_pool(), nodes_view(nodes@));
                final(self).view_pool() == pool2 && r.spec_value() as int == id
            }),
    {
        let ghost body = nodes_view(nodes@);
        let ghost pool0 = self.view_pool();
        let mut index: usize = 0;
        while index < self.promises.len()
            invariant
                index <= self.promises@.len(),
                self == old(self),
                find_match(pool0, body, 0) == find_match(pool0, body, index as int),
            decreases self.promises@.len() - index,
        {
            match &self.promises[index] {
                Some(promise) => {
                    if nodes_eq(promise.source(), &nodes) {
                        proof {
                            assert(pool0[index as int] == Some(promise_view(*promise)));
                            assert(find_match(pool0, body, index as int) == Some(
                                index as int,
                            ));
                        }
                        return JITPromiseID::new(index as u16);
                    }
                    proof {
                        assert(pool0[index as int] == Some(promise_view(*promise)));
                    }
                },
                None => {
                    proof {
                        assert(pool0[index as int] is None);
                    }
                },
            }
            index += 1;
        }

        // If this is a new promise, add it to the pool.
        let id = self.promises.len() as u16;
        self.promises.push(Some(JITPromise::Deferred(nodes)));
        proof {
            assert(self.view_pool() =~= pool0.push(Some(PromiseSpec::Deferred(body))));
        }
        JITPromiseID::new(id)
    }

    /// Check a promise out of its slot, leaving `None` behind.
    pub fn take(&mut self, id: JITPromiseID) -> (r: Option<JITPromise>)
        requires
            (id.spec_value() as int) < old(self).view_pool().len(),
        ensures
            ({
                let k = id.spec_value() as int;
                &&& (match r {
                    Some(p) => old(self).view_pool()[k] == Some(promise_view(p)),
                    None => old(self).view_pool()[k] is None,
                })
                &&& final(self).view_pool() == old(self).view_pool().update(
                    k,
                    None::<PromiseSpec>,
                )
            }),
    {
        let k = id.value() as usize;
        let ghost pool0 = self.view_pool();
        let p = self.promises.remove(k);
        self.promises.insert(k, None);
        proof {
            assert(self.view_pool() =~= pool0.update(
                id.spec_value() as int,
                None::<PromiseSpec>,
            ));
        }
        p
    }

    /// Write a promise back into its slot.
    pub fn put(&mut self, id: JITPromiseID, promise: JITPromise)
        requires
            (id.spec_value() as int) < old(self).view_pool().len(),
        ensures
            final(self).view_pool() == old(self).view_pool().update(
                id.spec_value() as int,
                Some(promise_view(promise)),
            ),
    {
        let k = id.value() as usize;
        let ghost pool0 = self.view_pool();
        let ghost pv = promise_view(promise);
        self.promises.remove(k);
        self.promises.insert(k, Some(promise));
        proof {
            assert(self.view_pool() =~= pool0.update(id.spec_value() as int, Some(pv)));
        }
    }

    pub fn len(&self) -> (r: usize)
        ensures
            r == self.view_pool().len(),
    {
        self.promises.len()
    }
}

/// No slot at or after `i` matches `body` when the search from `i` fails.
proof fn lemma_find_match_none(pool: Seq<Option<PromiseSpec>>, body: Seq<AstSpec>, i: int, j: int)
    requires
        find_match(pool, body, i) is None,
        i <= j < pool.len(),
        0 <= i,
    ensures
        match pool[j] {
            Some(p) => promise_source(p) != body,
            None => true,
        },
    decreases j - i,
{
    if i < j {
        lemma_find_match_none(pool, body, i + 1, j);
    }
}

/// Searching a pool extended with a match at its end finds the old pool's
/// first match, or the new slot.
proof fn lemma_find_match_push(pool: Seq<Option<PromiseSpec>>, body: Seq<AstSpec>, i: int)
    requires
        0 <= i <= pool.len(),
        find_match(pool, body, 0) is None,
    ensures
        find_match(pool.push(Some(PromiseSpec::Deferred(body))), body, i) == Some(
            pool.len() as int,
        ),
    decreases pool.len() - i,
{
    let pool2 = pool.push(Some(PromiseSpec::Deferred(body)));
    if i == pool.len() {
        assert(pool2[i] == Some(PromiseSpec::Deferred(body)));
    } else {
        lemma_find_match_none(pool, body, 0, i);
        assert(pool2[i] == pool[i]);
        lemma_find_match_push(pool, body, i + 1);
    }
}

/// Law: promise deduplication.  Two structurally equal loop bodies share one
/// promise: registering the same body a second time returns the same ID and
/// leaves the pool unchanged.
pub proof fn lemma_promise_dedup(pool: Seq<Option<PromiseSpec>>, body: Seq<AstSpec>)
    ensures
        ({
            let (pool1, id1) = add_spec(pool, body);
            let (pool2, id2) = add_spec(pool1, body);
            pool2 == pool1 && id2 == id1
        }),
{
    match find_match(pool, body, 0) {
        Some(i) => {},
        None => {
            lemma_find_match_push(pool, body, 0);
        },
    }
}

} // verus!
