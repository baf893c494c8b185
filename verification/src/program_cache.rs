//! Reconciling a content-addressed cache of compiled shader programs with a freshly loaded
//! config: which cached programs to destroy and which wanted programs to compile.
//!
//! The caches (scoped chains and decoration programs) are keyed by the hash of the program's
//! source, so identical sources share one program. On a reload, every cached key that the config
//! no longer references is destroyed. Scoped chains are then compiled in config order, each one
//! whose key the cache lacks at that moment, so a chain that failed to compile is tried again at
//! its next copy (`next_to_compile`); decoration programs are compiled once per distinct key,
//! from the first shader that asks for it (`plan_decoration_programs`). The compiling itself is
//! the renderer's.

use std::collections::hash_map::DefaultHasher;

use vstd::prelude::*;
use vstd::std_specs::hash::DefaultHasherAdditionalSpecFns;

use crate::shaders::{scoped_key, scoped_key_writes};

verus! {

/// The cached keys that no wanted key matches, in cache order.
pub open spec fn stale_spec(cached: Seq<u64>, wanted: Seq<u64>) -> Seq<u64> {
    cached.filter(|k: u64| !wanted.contains(k))
}

/// Item `i` asks for a program to be compiled: it wants a key that is not cached and that no
/// earlier item wants.
pub open spec fn builds(cached: Seq<u64>, wanted: Seq<Option<u64>>, i: int) -> bool {
    match wanted[i] {
        Some(k) => !cached.contains(k) && forall|j: int| 0 <= j < i ==> wanted[j] != Some(k),
        None => false,
    }
}

/// The indices, among the first `n` items, of those that ask for a program, in order.
pub open spec fn build_plan(cached: Seq<u64>, wanted: Seq<Option<u64>>, n: int) -> Seq<usize>
    decreases n,
{
    if n <= 0 {
        Seq::empty()
    } else if builds(cached, wanted, n - 1) {
        build_plan(cached, wanted, n - 1).push((n - 1) as usize)
    } else {
        build_plan(cached, wanted, n - 1)
    }
}

/// Whether some item wants key `k`.
pub open spec fn is_wanted(wanted: Seq<Option<u64>>, k: u64) -> bool {
    exists|i: int| 0 <= i < wanted.len() && wanted[i] == Some(k)
}

pub(crate) fn has_key(keys: &[u64], k: u64) -> (b: bool)
    ensures
        b == keys@.contains(k),
{
    let mut i: usize = 0;
    while i < keys.len()
        invariant
            i <= keys@.len(),
            forall|j: int| 0 <= j < i ==> keys@[j] != k,
        decreases keys@.len() - i,
    {
        if keys[i] == k {
            return true;
        }
        i = i + 1;
    }
    false
}

fn wanted_before(wanted: &[Option<u64>], i: usize, k: u64) -> (b: bool)
    requires
        i <= wanted@.len(),
    ensures
        b == exists|j: int| 0 <= j < i && wanted@[j] == Some(k),
{
    let mut j: usize = 0;
    while j < i
        invariant
            j <= i <= wanted@.len(),
            forall|m: int| 0 <= m < j ==> wanted@[m] != Some(k),
        decreases i - j,
    {
        if wanted[j] == Some(k) {
            assert(wanted@[j as int] == Some(k));
            return true;
        }
        j = j + 1;
    }
    false
}

/// The cached keys to destroy on a reload: those no wanted key matches, in cache order.
fn stale_keys(cached: &[u64], wanted: &[u64]) -> (r: Vec<u64>)
    ensures
        r@ == stale_spec(cached@, wanted@),
{
    let mut r: Vec<u64> = Vec::new();
    let mut i: usize = 0;
    while i < cached.len()
        invariant
            i <= cached@.len(),
            r@ == cached@.take(i as int).filter(|k: u64| !wanted@.contains(k)),
        decreases cached@.len() - i,
    {
        let k = cached[i];
        let keep = has_key(wanted, k);
        proof {
            reveal(Seq::filter);
            assert(cached@.take(i + 1).drop_last() =~= cached@.take(i as int));
            assert(cached@.take(i + 1).last() == k);
        }
        if !keep {
            r.push(k);
        }
        i = i + 1;
    }
    assert(cached@.take(cached@.len() as int) =~= cached@);
    r
}

/// The items to compile on a reload, by index: each item that wants a key that is neither
/// cached nor wanted by an earlier item, in order. `None` stands for an item that wants no
/// program.
fn keys_to_build(cached: &[u64], wanted: &[Option<u64>]) -> (r: Vec<usize>)
    ensures
        r@ == build_plan(cached@, wanted@, wanted@.len() as int),
{
    let mut r: Vec<usize> = Vec::new();
    let mut i: usize = 0;
    while i < wanted.len()
        invariant
            i <= wanted@.len(),
            r@ == build_plan(cached@, wanted@, i as int),
        decreases wanted@.len() - i,
    {
        match wanted[i] {
            Some(k) => {
                let cached_already = has_key(cached, k);
                let earlier = wanted_before(wanted, i, k);
                if !cached_already && !earlier {
                    r.push(i);
                }
            },
            None => {},
        }
        i = i + 1;
    }
    r
}

/// The keys of a config's scoped chains, for `stale_keys`: every chain, empty ones included.
pub(crate) fn chain_keys(chains: &[Vec<(String, bool)>]) -> (r: Vec<u64>)
    ensures
        r@.len() == chains@.len(),
        forall|i: int|
            0 <= i < chains@.len() ==> #[trigger] r@[i] == DefaultHasher::spec_finish(
                scoped_key_writes(chains@[i]@),
            ),
{
    let mut r: Vec<u64> = Vec::new();
    let mut i: usize = 0;
    while i < chains.len()
        invariant
            i <= chains@.len(),
            r@.len() == i,
            forall|j: int|
                0 <= j < i ==> #[trigger] r@[j] == DefaultHasher::spec_finish(
                    scoped_key_writes(chains@[j]@),
                ),
        decreases chains@.len() - i,
    {
        r.push(scoped_key(chains[i].as_slice()));
        i = i + 1;
    }
    r
}

/// The program each chain asks for, for `keys_to_build`: its key, or none for an empty chain
/// (an empty chain compiles nothing).
fn chain_requests(chains: &[Vec<(String, bool)>]) -> (r: Vec<Option<u64>>)
    ensures
        r@.len() == chains@.len(),
        forall|i: int|
            0 <= i < chains@.len() ==> #[trigger] r@[i] == if chains@[i]@.len() == 0 {
                None
            } else {
                Some(DefaultHasher::spec_finish(scoped_key_writes(chains@[i]@)))
            },
{
    let mut r: Vec<Option<u64>> = Vec::new();
    let mut i: usize = 0;
    while i < chains.len()
        invariant
            i <= chains@.len(),
            r@.len() == i,
            forall|j: int|
                0 <= j < i ==> #[trigger] r@[j] == if chains@[j]@.len() == 0 {
                    None
                } else {
                    Some(DefaultHasher::spec_finish(scoped_key_writes(chains@[j]@)))
                },
        decreases chains@.len() - i,
    {
        if chains[i].len() == 0 {
            r.push(None);
        } else {
            r.push(Some(scoped_key(chains[i].as_slice())));
        }
        i = i + 1;
    }
    r
}

/// What a reload does to the decoration-program cache: the cached keys to destroy, and the
/// indices of the shaders whose program to compile.
#[derive(Debug, Clone, PartialEq, Eq)]
pub struct ProgramPlan {
    pub destroy: Vec<u64>,
    pub compile: Vec<usize>,
}

/// The key each of a config's resolved chains hashes to.
pub open spec fn chain_key_spec(chains: Seq<Vec<(String, bool)>>) -> Seq<u64> {
    Seq::new(chains.len(), |i: int| DefaultHasher::spec_finish(scoped_key_writes(chains[i]@)))
}

/// The program each chain asks for: its key, or none for an empty chain.
pub open spec fn chain_request_spec(chains: Seq<Vec<(String, bool)>>) -> Seq<Option<u64>> {
    Seq::new(
        chains.len(),
        |i: int|
            if chains[i]@.len() == 0 {
                None
            } else {
                Some(DefaultHasher::spec_finish(scoped_key_writes(chains[i]@)))
            },
    )
}

/// The scoped-chain keys to destroy on a reload: every cached key that no chain of the config
/// hashes to (an empty chain included), in cache order.
pub fn scoped_stale_keys(cached: &[u64], chains: &[Vec<(String, bool)>]) -> (r: Vec<u64>)
    ensures
        r@ == stale_spec(cached@, chain_key_spec(chains@)),
{
    let keys = chain_keys(chains);
    assert(keys@ =~= chain_key_spec(chains@));
    stale_keys(cached, keys.as_slice())
}

/// The program each of a config's chains asks for, in order: its key, or `None` for an empty
/// chain, which compiles nothing.
pub fn scoped_requests(chains: &[Vec<(String, bool)>]) -> (r: Vec<Option<u64>>)
    ensures
        r@ == chain_request_spec(chains@),
{
    let r = chain_requests(chains);
    assert(r@ =~= chain_request_spec(chains@));
    r
}

/// Item `i` needs compiling against the cache as it is now: it asks for a key the cache lacks.
pub open spec fn needs_compile(cached_now: Seq<u64>, requests: Seq<Option<u64>>, i: int) -> bool {
    requests[i] matches Some(k) && !cached_now.contains(k)
}

/// The next request to compile, at or after `from`: the first that asks for a key the cache does
/// not hold now. The compile loop inserts each program that compiled, so a later identical chain
/// is skipped; a chain that failed to compile is not in the cache, so the next identical one is
/// tried again.
pub fn next_to_compile(cached_now: &[u64], requests: &[Option<u64>], from: usize) -> (r: Option<usize>)
    ensures
        match r {
            Some(i) => from <= i < requests@.len() && needs_compile(cached_now@, requests@, i as int)
                && forall|j: int| from <= j < i ==> !#[trigger] needs_compile(cached_now@, requests@, j),
            None => forall|j: int|
                from <= j < requests@.len() ==> !#[trigger] needs_compile(cached_now@, requests@, j),
        },
{
    let mut i: usize = from;
    while i < requests.len()
        invariant
            from <= i,
            forall|j: int| from <= j < i && j < requests@.len() ==> !#[trigger] needs_compile(cached_now@, requests@, j),
        decreases requests@.len() - i,
    {
        match requests[i] {
            Some(k) => {
                assert(requests@[i as int] == Some(k));
                if !has_key(cached_now, k) {
                    return Some(i);
                }
            },
            None => {},
        }
        i = i + 1;
    }
    None
}

/// A reload that changes no program compiles nothing: when the cache already holds every key
/// the config asks for, no request needs compiling.
pub proof fn lemma_unchanged_reload_compiles_nothing(
    cached_now: Seq<u64>,
    requests: Seq<Option<u64>>,
)
    requires
        forall|i: int|
            0 <= i < requests.len() ==> ((#[trigger] requests[i]) matches Some(k) ==> cached_now.contains(k)),
    ensures
        forall|i: int| 0 <= i < requests.len() ==> !#[trigger] needs_compile(cached_now, requests, i),
{
}

/// The plan for the decoration-program cache, given its keys and the key of each focus-ring and
/// border shader of the config (`None` for one without a program): destroy every cached key no
/// shader has, and compile each shader whose key is neither cached nor taken by an earlier one.
pub fn plan_decoration_programs(cached: &[u64], keys: &[Option<u64>]) -> (plan: ProgramPlan)
    ensures
        plan.destroy@ == stale_spec(cached@, present_keys(keys@)),
        plan.compile@ == build_plan(cached@, keys@, keys@.len() as int),
{
    let mut present: Vec<u64> = Vec::new();
    let mut i: usize = 0;
    while i < keys.len()
        invariant
            i <= keys@.len(),
            present@ == present_keys(keys@.take(i as int)),
        decreases keys@.len() - i,
    {
        proof {
            assert(keys@.take(i + 1).drop_last() =~= keys@.take(i as int));
        }
        match keys[i] {
            Some(k) => present.push(k),
            None => {},
        }
        i = i + 1;
    }
    assert(keys@.take(keys@.len() as int) =~= keys@);
    ProgramPlan { destroy: stale_keys(cached, present.as_slice()), compile: keys_to_build(cached, keys) }
}

/// The keys present among optional keys, in order.
pub open spec fn present_keys(keys: Seq<Option<u64>>) -> Seq<u64>
    decreases keys.len(),
{
    if keys.len() == 0 {
        Seq::empty()
    } else {
        match keys.last() {
            Some(k) => present_keys(keys.drop_last()).push(k),
            None => present_keys(keys.drop_last()),
        }
    }
}

pub(crate) proof fn lemma_build_plan_members(cached: Seq<u64>, wanted: Seq<Option<u64>>, n: int)
    requires
        0 <= n <= wanted.len(),
        wanted.len() <= usize::MAX,
    ensures
        forall|m: int|
            0 <= m < build_plan(cached, wanted, n).len() ==> {
                let i = #[trigger] build_plan(cached, wanted, n)[m] as int;
                0 <= i < n && builds(cached, wanted, i)
            },
        forall|i: int|
            0 <= i < n && builds(cached, wanted, i) ==> build_plan(cached, wanted, n).contains(
                i as usize,
            ),
        forall|a: int, b: int|
            0 <= a < b < build_plan(cached, wanted, n).len() ==> build_plan(cached, wanted, n)[a]
                < build_plan(cached, wanted, n)[b],
    decreases n,
{
    if n > 0 {
        lemma_build_plan_members(cached, wanted, n - 1);
        let p = build_plan(cached, wanted, n - 1);
        if builds(cached, wanted, n - 1) {
            let q = p.push((n - 1) as usize);
            assert(q[q.len() - 1] == (n - 1) as usize);
            assert forall|i: int| 0 <= i < n && builds(cached, wanted, i) implies q.contains(
                i as usize,
            ) by {
                if i < n - 1 {
                    let m = choose|m: int| 0 <= m < p.len() && p[m] == i as usize;
                    assert(q[m] == i as usize);
                } else {
                    assert(q[q.len() - 1] == i as usize);
                }
            }
        }
    }
}

/// Reconciling keeps exactly what the config wants. After the stale keys are destroyed and the
/// planned items compiled, the cache holds a key exactly when it was cached and is still wanted,
/// or some item wants it and it was not cached; no planned item asks for a cached key, and no
/// key is compiled twice.
pub proof fn lemma_reconcile_yields_wanted_keys(
    cached: Seq<u64>,
    keep: Seq<u64>,
    wanted: Seq<Option<u64>>,
    k: u64,
)
    requires
        wanted.len() <= usize::MAX,
    ensures
        ({
            let stale = stale_spec(cached, keep);
            let plan = build_plan(cached, wanted, wanted.len() as int);
            let after = (cached.contains(k) && !stale.contains(k)) || exists|m: int|
                0 <= m < plan.len() && wanted[plan[m] as int] == Some(k);
            after <==> ((cached.contains(k) && keep.contains(k)) || (is_wanted(wanted, k)
                && !cached.contains(k)))
        }),
        ({
            let plan = build_plan(cached, wanted, wanted.len() as int);
            forall|a: int, b: int|
                0 <= a < b < plan.len() ==> wanted[plan[a] as int] != wanted[plan[b] as int]
        }),
        ({
            let plan = build_plan(cached, wanted, wanted.len() as int);
            forall|m: int|
                0 <= m < plan.len() ==> ((#[trigger] wanted[plan[m] as int]) matches Some(q)
                    && !cached.contains(q))
        }),
{
    let stale = stale_spec(cached, keep);
    let pred = |x: u64| !keep.contains(x);
    let plan = build_plan(cached, wanted, wanted.len() as int);
    lemma_build_plan_members(cached, wanted, wanted.len() as int);
    cached.filter_lemma(pred);
    if cached.contains(k) {
        let i = choose|i: int| 0 <= i < cached.len() && cached[i] == k;
        if !keep.contains(k) {
            assert(pred(cached[i]));
            assert(stale.contains(k));
        }
    }
    if stale.contains(k) {
        let m = choose|m: int| 0 <= m < stale.len() && stale[m] == k;
        assert(pred(stale[m]));
    }
    if is_wanted(wanted, k) && !cached.contains(k) {
        let first = choose|i: int| 0 <= i < wanted.len() && wanted[i] == Some(k);
        lemma_first_request(wanted, k, first);
        let f = choose|f: int|
            0 <= f <= first && wanted[f] == Some(k) && forall|j: int| 0 <= j < f ==> wanted[j] != Some(k);
        assert(builds(cached, wanted, f));
        assert(plan.contains(f as usize));
        let m = choose|m: int| 0 <= m < plan.len() && plan[m] == f as usize;
        assert(wanted[plan[m] as int] == Some(k));
    }
    if exists|m: int| 0 <= m < plan.len() && wanted[plan[m] as int] == Some(k) {
        let m = choose|m: int| 0 <= m < plan.len() && wanted[plan[m] as int] == Some(k);
        let i = plan[m] as int;
        assert(builds(cached, wanted, i));
        assert(!cached.contains(k));
        assert(is_wanted(wanted, k));
    }
    assert forall|m: int| 0 <= m < plan.len() implies ((#[trigger] wanted[plan[m] as int]) matches Some(
        q,
    ) && !cached.contains(q)) by {
        assert(builds(cached, wanted, plan[m] as int));
    }
    assert forall|a: int, b: int| 0 <= a < b < plan.len() implies wanted[plan[a] as int]
        != wanted[plan[b] as int] by {
        let ia = plan[a] as int;
        let ib = plan[b] as int;
        assert(builds(cached, wanted, ia));
        assert(builds(cached, wanted, ib));
        assert(ia < ib);
    }
}

proof fn lemma_first_request(wanted: Seq<Option<u64>>, k: u64, i: int)
    requires
        0 <= i < wanted.len(),
        wanted[i] == Some(k),
    ensures
        exists|f: int|
            0 <= f <= i && wanted[f] == Some(k) && forall|j: int| 0 <= j < f ==> wanted[j] != Some(k),
    decreases i,
{
    if exists|j: int| 0 <= j < i && wanted[j] == Some(k) {
        let j = choose|j: int| 0 <= j < i && wanted[j] == Some(k);
        lemma_first_request(wanted, k, j);
    } else {
        assert(forall|j: int| 0 <= j < i ==> wanted[j] != Some(k));
    }
}

} // verus!
