//! Installing a reload's programs into the content-addressed program caches. Each cache maps a
//! source key to its compiled program(s); compiling is the renderer's, handed in as a function.
//! A cached program the config no longer wants is handed back for destruction.

use std::collections::HashMap;

use vstd::prelude::*;
use vstd::std_specs::iter::IteratorSpec;

use crate::decoration_shader::DecorationShader;
use crate::global_shader::opt_view;
use crate::program_cache::{chain_key_spec, chain_keys, chain_request_spec, has_key, scoped_requests};

verus! {

broadcast use vstd::std_specs::hash::group_hash_axioms;

/// The keys of a map, each once, in the map's iteration order.
fn keys_of_map<V>(m: &HashMap<u64, V>) -> (r: Vec<u64>)
    ensures
        r@.to_set() == m@.dom(),
        r@.no_duplicates(),
{
    let mut r: Vec<u64> = Vec::new();
    let ghost all: Seq<u64> = vstd::std_specs::hash::spec_keys_iter(m).remaining().unref();
    for k in it: m.keys()
        invariant
            r@ == all.take(it.index() as int),
            all == it.seq().unref(),
            all.to_set() == m@.dom(),
            all.no_duplicates(),
    {
        r.push(*k);
        proof {
            assert(all.take(it.index() + 1) =~= r@);
        }
    }
    assert(r@ =~= all);
    r
}

/// `discard` holds, once each, the entries of `old` whose key is not wanted, and `new` is `old`
/// without them.
pub open spec fn stale_removed<V>(
    old: Map<u64, V>,
    new: Map<u64, V>,
    wanted: Seq<u64>,
    discard: Seq<(u64, V)>,
) -> bool {
    &&& forall|k: u64| #[trigger] new.contains_key(k) <==> old.contains_key(k) && wanted.contains(k)
    &&& forall|k: u64| #[trigger] new.contains_key(k) ==> new[k] == old[k]
    &&& forall|j: int|
        0 <= j < discard.len() ==> old.contains_key(#[trigger] discard[j].0) && !wanted.contains(
            discard[j].0,
        ) && discard[j].1 == old[discard[j].0]
    &&& forall|k: u64|
        old.contains_key(k) && !wanted.contains(k) ==> exists|j: int|
            0 <= j < discard.len() && #[trigger] discard[j].0 == k
    &&& forall|a: int, b: int| 0 <= a < b < discard.len() ==> discard[a].0 != discard[b].0
}

/// Removes from `cache` every entry whose key is not among `wanted`, handing the entries back.
fn remove_stale<V>(cache: &mut HashMap<u64, V>, wanted: &[u64]) -> (discard: Vec<(u64, V)>)
    ensures
        stale_removed(old(cache)@, final(cache)@, wanted@, discard@),
{
    let ghost o = cache@;
    let ks = keys_of_map(cache);
    let mut discard: Vec<(u64, V)> = Vec::new();
    let mut i: usize = 0;
    while i < ks.len()
        invariant
            i <= ks@.len(),
            ks@.to_set() == o.dom(),
            ks@.no_duplicates(),
            forall|k: u64|
                #[trigger] cache@.contains_key(k) <==> o.contains_key(k) && !(ks@.take(i as int).contains(
                    k,
                ) && !wanted@.contains(k)),
            forall|k: u64| #[trigger] cache@.contains_key(k) ==> cache@[k] == o[k],
            forall|j: int|
                0 <= j < discard@.len() ==> ks@.take(i as int).contains(#[trigger] discard@[j].0)
                    && o.contains_key(discard@[j].0) && !wanted@.contains(discard@[j].0)
                    && discard@[j].1 == o[discard@[j].0],
            forall|k: u64|
                ks@.take(i as int).contains(k) && o.contains_key(k) && !wanted@.contains(k) ==> exists|
                    j: int,
                | 0 <= j < discard@.len() && #[trigger] discard@[j].0 == k,
            forall|a: int, b: int|
                0 <= a < b < discard@.len() ==> discard@[a].0 != discard@[b].0,
        decreases ks@.len() - i,
    {
        let k = ks[i];
        let ghost t0 = ks@.take(i as int);
        let ghost t1 = ks@.take(i + 1);
        proof {
            assert(ks@.to_set().contains(k));
            assert(t1 =~= t0.push(k));
            assert(!t0.contains(k)) by {
                if t0.contains(k) {
                    let p = choose|p: int| 0 <= p < i && t0[p] == k;
                    assert(ks@[p] == ks@[i as int]);
                }
            }
        }
        if !has_key(wanted, k) {
            let ghost before = discard@;
            let ghost c0 = cache@;
            match cache.remove(&k) {
                Some(v) => {
                    discard.push((k, v));
                    proof {
                        assert forall|j: int| 0 <= j < discard@.len() implies t1.contains(
                            #[trigger] discard@[j].0,
                        ) && o.contains_key(discard@[j].0) && !wanted@.contains(discard@[j].0)
                            && discard@[j].1 == o[discard@[j].0] by {
                            if j < before.len() {
                                assert(discard@[j] == before[j]);
                                let p = choose|p: int|
                                    0 <= p < i && t0[p] == before[j].0;
                                assert(t1[p] == before[j].0);
                            } else {
                                assert(t1[i as int] == k);
                            }
                        }
                        assert forall|kk: u64|
                            t1.contains(kk) && o.contains_key(kk) && !wanted@.contains(
                                kk,
                            ) implies exists|j: int|
                            0 <= j < discard@.len() && #[trigger] discard@[j].0 == kk by {
                            if kk == k {
                                assert(discard@[before.len() as int].0 == k);
                            } else {
                                let p = choose|p: int| 0 <= p < i + 1 && t1[p] == kk;
                                assert(p != i);
                                assert(t0[p] == kk);
                                let j = choose|j: int| 0 <= j < before.len() && #[trigger] before[j].0 == kk;
                                assert(discard@[j] == before[j]);
                            }
                        }
                    }
                },
                None => {
                    assert(false);
                },
            }
        } else {
            proof {
                assert forall|j: int| 0 <= j < discard@.len() implies t1.contains(
                    #[trigger] discard@[j].0,
                ) by {
                    let p = choose|p: int| 0 <= p < i && t0[p] == discard@[j].0;
                    assert(t1[p] == discard@[j].0);
                }
                assert forall|kk: u64|
                    t1.contains(kk) && o.contains_key(kk) && !wanted@.contains(kk) implies exists|
                    j: int,
                | 0 <= j < discard@.len() && #[trigger] discard@[j].0 == kk by {
                    let p = choose|p: int| 0 <= p < i + 1 && t1[p] == kk;
                    if p == i {
                        assert(wanted@.contains(kk));
                    } else {
                        assert(t0[p] == kk);
                    }
                }
            }
        }
        i = i + 1;
    }
    proof {
        assert(ks@.take(ks@.len() as int) =~= ks@);
        assert forall|k: u64| o.contains_key(k) implies ks@.contains(k) by {
            assert(ks@.to_set().contains(k));
        }
    }
    discard
}

/// `compile`, called with a slice holding `chain`, may return `out`.
pub open spec fn chain_compiles_to<P, C: Fn(&[(String, bool)]) -> Option<Vec<P>>>(
    compile: C,
    chain: Seq<(String, bool)>,
    out: Option<Vec<P>>,
) -> bool {
    exists|x: &[(String, bool)]| x@ == chain && #[trigger] call_ensures(compile, (x,), out)
}

/// A cache entry a scoped install added: some chain asks for its key, and compiling that chain
/// may give its programs.
pub open spec fn entry_from_chain<P, C: Fn(&[(String, bool)]) -> Option<Vec<P>>>(
    chains: Seq<Vec<(String, bool)>>,
    compile: C,
    k: u64,
    v: Vec<P>,
) -> bool {
    exists|i: int|
        0 <= i < chains.len() && chain_request_spec(chains)[i] == Some(k) && #[trigger] chain_compiles_to(
            compile,
            chains[i]@,
            Some(v),
        )
}

/// Installs a reload's scoped chains into the scoped-program cache, returning the entries to
/// destroy. Cached chains no chain of the config hashes to are removed and returned; the others
/// stay unchanged. Then each non-empty chain whose key the cache lacks at that moment is
/// compiled, and what compiles is added under its key, so identical chains share one program and
/// a chain that failed is tried again at its next copy.
pub fn install_scoped_programs<P, C: Fn(&[(String, bool)]) -> Option<Vec<P>>>(
    cache: &mut HashMap<u64, Vec<P>>,
    chains: &[Vec<(String, bool)>],
    compile: &C,
) -> (discard: Vec<(u64, Vec<P>)>)
    requires
        forall|x: &[(String, bool)]| compile.requires((x,)),
    ensures
        ({
            let wanted = chain_key_spec(chains@);
            let requests = chain_request_spec(chains@);
            let o = old(cache)@;
            let f = final(cache)@;
            &&& forall|j: int|
                0 <= j < discard@.len() ==> o.contains_key(#[trigger] discard@[j].0) && !wanted.contains(
                    discard@[j].0,
                ) && discard@[j].1 == o[discard@[j].0]
            &&& forall|k: u64|
                o.contains_key(k) && !wanted.contains(k) ==> exists|j: int|
                    0 <= j < discard@.len() && #[trigger] discard@[j].0 == k
            &&& forall|a: int, b: int|
                0 <= a < b < discard@.len() ==> discard@[a].0 != discard@[b].0
            &&& forall|k: u64| o.contains_key(k) && wanted.contains(k) ==> #[trigger] f.contains_key(k) && f[k] == o[k]
            &&& forall|k: u64|
                #[trigger] f.contains_key(k) && !(o.contains_key(k) && wanted.contains(k)) ==> entry_from_chain(
                    chains@,
                    *compile,
                    k,
                    f[k],
                )
            &&& forall|i: int|
                0 <= i < requests.len() && (#[trigger] requests[i] matches Some(k)) && !f.contains_key(
                    requests[i]->0,
                ) ==> chain_compiles_to(*compile, chains@[i]@, None)
        }),
{
    let keys = chain_keys(chains);
    assert(keys@ =~= chain_key_spec(chains@));
    let ghost o = cache@;
    let discard = remove_stale(cache, keys.as_slice());
    let ghost kept = cache@;
    let requests = scoped_requests(chains);
    let ghost req = requests@;
    proof {
        assert forall|i: int, k: u64| 0 <= i < req.len() && req[i] == Some(k) implies chain_key_spec(
            chains@,
        ).contains(k) by {
            assert(chain_key_spec(chains@)[i] == k);
        }
    }
    let mut i: usize = 0;
    while i < requests.len()
        invariant
            i <= requests@.len(),
            req == requests@,
            req == chain_request_spec(chains@),
            req.len() == chains@.len(),
            forall|x: &[(String, bool)]| compile.requires((x,)),
            forall|ii: int, k: u64|
                0 <= ii < req.len() && req[ii] == Some(k) ==> chain_key_spec(chains@).contains(k),
            forall|k: u64| #[trigger] kept.contains_key(k) ==> cache@.contains_key(k) && cache@[k] == kept[k],
            forall|k: u64|
                #[trigger] cache@.contains_key(k) && !kept.contains_key(k) ==> entry_from_chain(
                    chains@,
                    *compile,
                    k,
                    cache@[k],
                ),
            forall|j: int|
                0 <= j < i && (#[trigger] req[j] matches Some(k)) && !cache@.contains_key(req[j]->0)
                    ==> chain_compiles_to(*compile, chains@[j]@, None),
        decreases requests@.len() - i,
    {
        match requests[i] {
            Some(k) => {
                if !cache.contains_key(&k) {
                    let got = compile(chains[i].as_slice());
                    assert(chain_compiles_to(*compile, chains@[i as int]@, got));
                    match got {
                        Some(v) => {
                            let ghost c0 = cache@;
                            cache.insert(k, v);
                            proof {
                                assert(req[i as int] == Some(k));
                                assert(entry_from_chain(chains@, *compile, k, cache@[k]));
                                assert forall|kk: u64|
                                    #[trigger] cache@.contains_key(kk) && !kept.contains_key(kk)
                                        implies entry_from_chain(chains@, *compile, kk, cache@[kk]) by {
                                    if kk != k {
                                        assert(c0.contains_key(kk));
                                    }
                                }
                            }
                        },
                        None => {},
                    }
                }
            },
            None => {},
        }
        i = i + 1;
    }
    proof {
        assert forall|k: u64| o.contains_key(k) && keys@.contains(k) implies #[trigger] cache@.contains_key(k)
            && cache@[k] == o[k] by {
            assert(kept.contains_key(k));
        }
    }
    discard
}

/// The key a decoration shader asks for: its own, when it is enabled and has a source.
pub open spec fn decoration_key(s: DecorationShader) -> Option<u64> {
    if s.enable {
        s.key
    } else {
        None
    }
}

/// The characters of an optional string slice.
pub open spec fn opt_str_view(o: Option<&str>) -> Option<Seq<char>> {
    match o {
        Some(s) => Some(s@),
        None => None,
    }
}

/// `compile`, called with the characters of `source`, may return `out`.
pub open spec fn decoration_compiles_to<P, C: Fn(Option<&str>) -> Option<P>>(
    compile: C,
    source: Option<Seq<char>>,
    out: Option<P>,
) -> bool {
    exists|x: Option<&str>| opt_str_view(x) == source && #[trigger] call_ensures(compile, (x,), out)
}

/// A cache entry a decoration install added: some shader asks for its key, and compiling that
/// shader's source may give its program.
pub open spec fn entry_from_shader<P, C: Fn(Option<&str>) -> Option<P>>(
    shaders: Seq<DecorationShader>,
    compile: C,
    k: u64,
    v: P,
) -> bool {
    exists|i: int|
        0 <= i < shaders.len() && decoration_key(shaders[i]) == Some(k) && #[trigger] decoration_compiles_to(
            compile,
            opt_view(shaders[i].source),
            Some(v),
        )
}

/// The keys some shader asks for.
pub open spec fn wanted_keys(shaders: Seq<DecorationShader>) -> Seq<u64> {
    shaders.map_values(|s: DecorationShader| decoration_key(s)).filter(|w: Option<u64>| w is Some).map_values(
        |w: Option<u64>| w->0,
    )
}

/// Installs a reload's focus-ring and border shaders into the decoration-program cache,
/// returning the entries to destroy. Cached programs no shader's key matches are removed and
/// returned; the others stay unchanged. Then each key some shader wants and the cache lacks is
/// compiled once, from the first shader with that key, and added when it compiles; one that
/// fails leaves its shaders on their configured colours.
pub fn install_decoration_programs<P, C: Fn(Option<&str>) -> Option<P>>(
    cache: &mut HashMap<u64, P>,
    shaders: &[DecorationShader],
    compile: &C,
) -> (discard: Vec<(u64, P)>)
    requires
        forall|x: Option<&str>| compile.requires((x,)),
    ensures
        ({
            let keys = shaders@.map_values(|s: DecorationShader| decoration_key(s));
            let wanted = wanted_keys(shaders@);
            let o = old(cache)@;
            let f = final(cache)@;
            &&& forall|j: int|
                0 <= j < discard@.len() ==> o.contains_key(#[trigger] discard@[j].0) && !wanted.contains(
                    discard@[j].0,
                ) && discard@[j].1 == o[discard@[j].0]
            &&& forall|k: u64|
                o.contains_key(k) && !wanted.contains(k) ==> exists|j: int|
                    0 <= j < discard@.len() && #[trigger] discard@[j].0 == k
            &&& forall|a: int, b: int|
                0 <= a < b < discard@.len() ==> discard@[a].0 != discard@[b].0
            &&& forall|k: u64| o.contains_key(k) && wanted.contains(k) ==> #[trigger] f.contains_key(k) && f[k] == o[k]
            &&& forall|k: u64|
                #[trigger] f.contains_key(k) && !(o.contains_key(k) && wanted.contains(k)) ==> entry_from_shader(
                    shaders@,
                    *compile,
                    k,
                    f[k],
                )
            &&& forall|i: int|
                0 <= i < keys.len() && (#[trigger] keys[i] matches Some(k)) && !f.contains_key(keys[i]->0)
                    && (forall|j: int| 0 <= j < i ==> keys[j] != keys[i]) ==> decoration_compiles_to(
                    *compile,
                    opt_view(shaders@[i].source),
                    None,
                )
        }),
{
    let mut keys: Vec<Option<u64>> = Vec::new();
    let mut present: Vec<u64> = Vec::new();
    let mut i: usize = 0;
    while i < shaders.len()
        invariant
            i <= shaders@.len(),
            keys@ == shaders@.take(i as int).map_values(|s: DecorationShader| decoration_key(s)),
            present@ == keys@.filter(|w: Option<u64>| w is Some).map_values(|w: Option<u64>| w->0),
        decreases shaders@.len() - i,
    {
        let k = shaders[i].key();
        let ghost k0 = keys@;
        keys.push(k);
        proof {
            reveal(Seq::filter);
            assert(shaders@.take(i + 1) =~= shaders@.take(i as int).push(shaders@[i as int]));
            assert(keys@ =~= shaders@.take(i + 1).map_values(|s: DecorationShader| decoration_key(s)));
            assert(keys@.drop_last() =~= k0);
        }
        match k {
            Some(kk) => {
                present.push(kk);
                proof {
                    let f0 = k0.filter(|w: Option<u64>| w is Some);
                    assert(f0.push(Some(kk)).map_values(|w: Option<u64>| w->0) =~= f0.map_values(
                        |w: Option<u64>| w->0,
                    ).push(kk));
                }
            },
            None => {},
        }
        i = i + 1;
    }
    assert(shaders@.take(shaders@.len() as int) =~= shaders@);
    let ghost kv = keys@;
    assert(present@ == wanted_keys(shaders@));
    let ghost o = cache@;
    let discard = remove_stale(cache, present.as_slice());
    let ghost kept = cache@;
    proof {
        assert forall|ii: int, k: u64| 0 <= ii < kv.len() && kv[ii] == Some(k) implies present@.contains(k) by {
            lemma_present_contains(kv, ii);
        }
    }
    let mut p: usize = 0;
    while p < keys.len()
        invariant
            p <= keys@.len(),
            kv == keys@,
            kv.len() == shaders@.len(),
            kv == shaders@.map_values(|s: DecorationShader| decoration_key(s)),
            forall|x: Option<&str>| compile.requires((x,)),
            forall|ii: int, k: u64| 0 <= ii < kv.len() && kv[ii] == Some(k) ==> present@.contains(k),
            forall|k: u64| #[trigger] kept.contains_key(k) ==> cache@.contains_key(k) && cache@[k] == kept[k],
            forall|k: u64|
                #[trigger] cache@.contains_key(k) && !kept.contains_key(k) ==> entry_from_shader(
                    shaders@,
                    *compile,
                    k,
                    cache@[k],
                ),
            forall|j: int|
                0 <= j < p && (#[trigger] kv[j] matches Some(k)) && !cache@.contains_key(kv[j]->0)
                    && (forall|jj: int| 0 <= jj < j ==> kv[jj] != kv[j]) ==> decoration_compiles_to(
                    *compile,
                    opt_view(shaders@[j].source),
                    None,
                ),
        decreases keys@.len() - p,
    {
        match keys[p] {
            Some(k) => {
                let earlier = wanted_before(keys.as_slice(), p, k);
                if !earlier && !cache.contains_key(&k) {
                    let src = shaders[p].source();
                    let got = compile(src);
                    assert(opt_str_view(src) == opt_view(shaders@[p as int].source));
                    assert(decoration_compiles_to(*compile, opt_view(shaders@[p as int].source), got));
                    match got {
                        Some(v) => {
                            let ghost c0 = cache@;
                            cache.insert(k, v);
                            proof {
                                assert(entry_from_shader(shaders@, *compile, k, cache@[k]));
                                assert forall|kk: u64|
                                    #[trigger] cache@.contains_key(kk) && !kept.contains_key(kk)
                                        implies entry_from_shader(shaders@, *compile, kk, cache@[kk]) by {
                                    if kk != k {
                                        assert(c0.contains_key(kk));
                                    }
                                }
                            }
                        },
                        None => {},
                    }
                }
                proof {
                    if earlier {
                        let jj = choose|jj: int| 0 <= jj < p && kv[jj] == Some(k);
                        assert(kv[jj] == kv[p as int]);
                    }
                }
            },
            None => {},
        }
        p = p + 1;
    }
    proof {
        assert forall|k: u64| o.contains_key(k) && present@.contains(k) implies #[trigger] cache@.contains_key(k)
            && cache@[k] == o[k] by {
            assert(kept.contains_key(k));
        }
    }
    discard
}

fn wanted_before(wanted: &[Option<u64>], i: usize, k: u64) -> (b: bool)
    requires
        i <= wanted@.len(),
    ensures
        b == exists|j: int| 0 <= j < i && wanted@[j] == Some(k),
{
    let mut j: usize = 0;
    while j < i
        invariant
            j <= i <= wanted@.len(),
            forall|m: int| 0 <= m < j ==> wanted@[m] != Some(k),
        decreases i - j,
    {
        if wanted[j] == Some(k) {
            assert(wanted@[j as int] == Some(k));
            return true;
        }
        j = j + 1;
    }
    false
}

proof fn lemma_present_contains(keys: Seq<Option<u64>>, i: int)
    requires
        0 <= i < keys.len(),
        keys[i] is Some,
    ensures
        keys.filter(|w: Option<u64>| w is Some).map_values(|w: Option<u64>| w->0).contains(keys[i]->0),
{
    let pred = |w: Option<u64>| w is Some;
    keys.filter_lemma(pred);
    assert(keys.filter(pred).contains(keys[i]));
    let m = choose|m: int| 0 <= m < keys.filter(pred).len() && keys.filter(pred)[m] == keys[i];
    assert(keys.filter(pred).map_values(|w: Option<u64>| w->0)[m] == keys[i]->0);
}

} // verus!
