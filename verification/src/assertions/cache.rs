//! Compiled assertions that are kept for the next time.

use crate::assertions;
use crate::assertions::compiled;
use crate::assertions::compiled::{
    all_compile_to, compilation, compiles_to, CompileHalt, Builds,
};
use crate::assertions::{same_op, same_ops};
use crate::config_store::share;
use std::sync::Arc;
use vstd::prelude::*;

verus! {

/// A compiled assertion that is kept.
#[derive(Debug)]
pub struct CacheEntry {
    assertion: Arc<compiled::Assertion>,
}

impl CacheEntry {
    /// The compiled assertion.
    pub closed spec fn compiled(self) -> compiled::Assertion {
        *self.assertion
    }
}

/// A cache of 8192 places. An assertion has one place, by its hash, so that one may
/// drive out another.
#[verifier::external_body]
pub struct AssocCache {
    inner: associative_cache::AssociativeCache<
        assertions::Assertion,
        associative_cache::WithLruTimestamp<CacheEntry>,
        associative_cache::Capacity8192,
        associative_cache::HashDirectMapped,
        associative_cache::LruReplacement,
    >,
}

/// The assertions that a cache holds, each with what it was compiled to.
pub uninterp spec fn held_by(cache: AssocCache) -> Set<(assertions::Assertion, CacheEntry)>;

/// At most one entry was driven out.
pub open spec fn one_driven_out(
    before: Set<(assertions::Assertion, CacheEntry)>,
    after: Set<(assertions::Assertion, CacheEntry)>,
) -> bool {
    forall|p: (assertions::Assertion, CacheEntry), q: (assertions::Assertion, CacheEntry)|
        #![trigger before.contains(p), before.contains(q)]
        before.contains(p) && before.contains(q) && !after.contains(p) && !after.contains(q) ==> p
            == q
}

/// `associative_cache::AssociativeCache::default`: a cache that holds nothing.
#[verifier::external_body]
fn empty_cache() -> (r: AssocCache)
    ensures
        held_by(r) == Set::<(assertions::Assertion, CacheEntry)>::empty(),
{
    AssocCache { inner: Default::default() }
}

/// `associative_cache::AssociativeCache::get`: what is held for an equal assertion, if
/// anything is.
#[verifier::external_body]
fn look_up<'a>(cache: &'a AssocCache, key: &assertions::Assertion) -> (r: Option<&'a CacheEntry>)
    ensures
        match r {
            Some(entry) => exists|k: assertions::Assertion| #[trigger]
                held_by(*cache).contains((k, *entry)) && same_op(k.root, key.root),
            None => forall|k: assertions::Assertion, e: CacheEntry| #[trigger]
                held_by(*cache).contains((k, e)) ==> !same_op(k.root, key.root),
        },
{
    cache.inner.get(key).map(|entry| entry.as_ref())
}

/// `associative_cache::AssociativeCache::insert`: afterwards the assertion is held with
/// this entry and no other. At most one other assertion is driven out.
#[verifier::external_body]
fn keep(cache: &mut AssocCache, key: assertions::Assertion, entry: CacheEntry)
    ensures
        held_by(*final(cache)).contains((key, entry)),
        forall|k: assertions::Assertion, e: CacheEntry| #[trigger]
            held_by(*final(cache)).contains((k, e)) ==> (k, e) == (key, entry) || (held_by(
                *old(cache),
            ).contains((k, e)) && !same_op(k.root, key.root)),
        one_driven_out(held_by(*old(cache)), held_by(*final(cache))),
{
    cache.inner.insert(key, associative_cache::WithLruTimestamp::new(entry));
}

/// Compiled assertions, by what they were compiled from.
pub struct Cache {
    compiled: AssocCache,
}

/// What was compiled from one of two assertions that say the same is what the other
/// says too.
pub proof fn law_same_assertions_compile_to_the_same(
    a: assertions::Op,
    b: assertions::Op,
    r: compiled::Op,
)
    requires
        same_op(a, b),
        compiles_to(a, r),
    ensures
        compiles_to(b, r),
    decreases a, 0int,
{
    match (a, b, r) {
        (
            assertions::Op::And { children: x },
            assertions::Op::And { children: y },
            compiled::Op::And { children: c },
        ) => lemma_same_lists_compile_to_the_same(x@, y@, c@, 0),
        (
            assertions::Op::Or { children: x },
            assertions::Op::Or { children: y },
            compiled::Op::Or { children: c },
        ) => lemma_same_lists_compile_to_the_same(x@, y@, c@, 0),
        (
            assertions::Op::Not { operand: x },
            assertions::Op::Not { operand: y },
            compiled::Op::Not { operand: c },
        ) => law_same_assertions_compile_to_the_same(*x, *y, *c),
        _ => {},
    }
}

proof fn lemma_same_lists_compile_to_the_same(
    a: Seq<assertions::Op>,
    b: Seq<assertions::Op>,
    r: Seq<compiled::Op>,
    from: int,
)
    requires
        0 <= from,
        a.len() == b.len() == r.len(),
        same_ops(a, b, from),
        all_compile_to(a, r, from),
    ensures
        all_compile_to(b, r, from),
    decreases a, a.len() - from,
{
    if from < a.len() {
        law_same_assertions_compile_to_the_same(a[from], b[from], r[from]);
        lemma_same_lists_compile_to_the_same(a, b, r, from + 1);
    }
}

impl Cache {
    /// What is kept.
    pub closed spec fn held(self) -> Set<(assertions::Assertion, CacheEntry)> {
        held_by(self.compiled)
    }

    /// Every assertion is kept with what it compiles to.
    pub open spec fn wf(self) -> bool {
        forall|k: assertions::Assertion, e: CacheEntry| #[trigger]
            self.held().contains((k, e)) ==> compiles_to(k.root, e.compiled().root)
    }

    /// An assertion that says the same is kept.
    pub open spec fn holds(self, key: assertions::Assertion) -> bool {
        exists|k: assertions::Assertion, e: CacheEntry| #[trigger]
            self.held().contains((k, e)) && same_op(k.root, key.root)
    }

    /// A cache that keeps nothing yet.
    pub fn new() -> (r: Cache)
        ensures
            r.wf(),
            r.held() == Set::<(assertions::Assertion, CacheEntry)>::empty(),
    {
        Cache { compiled: empty_cache() }
    }

    /// The compiled assertion: the one that is kept, whatever else is asked for, or else
    /// a new one, which is kept from then on. What does not compile is not kept.
    pub fn get_or_compile(
        &mut self,
        key: &assertions::Assertion,
        max_assertion_ops: u32,
        builds: &Builds,
    ) -> (r: Result<Arc<compiled::Assertion>, CompileHalt>)
        requires
            old(self).wf(),
        ensures
            final(self).wf(),
            r matches Ok(c) ==> compiles_to(key.root, c.root) && final(self).holds(*key),
            if old(self).holds(*key) {
                r is Ok && *final(self) == *old(self)
            } else {
                match compilation(key.root, max_assertion_ops as int, builds@) {
                    Ok(_) => r is Ok && one_driven_out(old(self).held(), final(self).held())
                        && forall|k: assertions::Assertion, e: CacheEntry| #[trigger]
                        final(self).held().contains((k, e)) ==> same_op(k.root, key.root) || old(self).held().contains((k, e)),
                    Err(halt) => r matches Err(h) && h@ == halt && *final(self) == *old(self),
                }
            },
    {
        if let Some(entry) = look_up(&self.compiled, key) {
            proof {
                let k = choose|k: assertions::Assertion| #[trigger]
                    held_by(self.compiled).contains((k, *entry)) && same_op(k.root, key.root);
                assert(self.held().contains((k, *entry)));
                law_same_assertions_compile_to_the_same(
                    k.root,
                    key.root,
                    entry.compiled().root,
                );
            }
            return Ok(share(&entry.assertion));
        }
        match compiled::compile(key, max_assertion_ops, builds) {
            Err(halt) => Err(halt),
            Ok(compiled) => {
                let ghost root = compiled.root;
                let compiled = Arc::new(compiled);
                let entry = CacheEntry { assertion: share(&compiled) };
                let ghost kept = entry;
                let ghost before = self.held();
                let copy = key.clone();
                let ghost k = copy;
                proof {
                    law_same_assertions_compile_to_the_same(key.root, copy.root, root);
                    lemma_same_is_mutual(key.root, copy.root);
                }
                keep(&mut self.compiled, copy, entry);
                proof {
                    assert(self.held().contains((k, kept)));
                    assert forall|j: assertions::Assertion, e: CacheEntry| #[trigger]
                        self.held().contains((j, e)) implies compiles_to(
                        j.root,
                        e.compiled().root,
                    ) by {
                        if (j, e) == (k, kept) {
                            assert(kept.compiled().root == root);
                        } else {
                            assert(before.contains((j, e)));
                        }
                    }
                }
                Ok(compiled)
            },
        }
    }
}

proof fn lemma_same_is_mutual(a: assertions::Op, b: assertions::Op)
    requires
        same_op(a, b),
    ensures
        same_op(b, a),
    decreases a, 0int,
{
    match (a, b) {
        (assertions::Op::And { children: x }, assertions::Op::And { children: y }) => {
            lemma_same_lists_are_mutual(x@, y@, 0)
        },
        (assertions::Op::Or { children: x }, assertions::Op::Or { children: y }) => {
            lemma_same_lists_are_mutual(x@, y@, 0)
        },
        (assertions::Op::Not { operand: x }, assertions::Op::Not { operand: y }) => {
            lemma_same_is_mutual(*x, *y)
        },
        _ => {},
    }
}

proof fn lemma_same_lists_are_mutual(
    a: Seq<assertions::Op>,
    b: Seq<assertions::Op>,
    from: int,
)
    requires
        0 <= from,
        a.len() == b.len(),
        same_ops(a, b, from),
    ensures
        same_ops(b, a, from),
    decreases a, a.len() - from,
{
    if from < a.len() {
        lemma_same_is_mutual(a[from], b[from]);
        lemma_same_lists_are_mutual(a, b, from + 1);
    }
}

} // verus!
