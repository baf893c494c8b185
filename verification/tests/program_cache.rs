use niri::program_cache::{
    next_to_compile, plan_decoration_programs, scoped_requests, scoped_stale_keys, ProgramPlan,
};
use niri::shaders::scoped_key;

fn chain(parts: &[(&str, bool)]) -> Vec<(String, bool)> {
    parts.iter().map(|(s, h)| (String::from(*s), *h)).collect()
}

/// The compile loop of a scoped reload, with each compile's success decided by `compiles`.
fn run_reload(
    cache: &mut Vec<u64>,
    chains: &[Vec<(String, bool)>],
    compiles: impl Fn(usize) -> bool,
) -> Vec<usize> {
    let stale = scoped_stale_keys(cache, chains);
    cache.retain(|k| !stale.contains(k));
    let requests = scoped_requests(chains);
    let mut tried = Vec::new();
    let mut from = 0;
    while let Some(i) = next_to_compile(cache, &requests, from) {
        tried.push(i);
        if compiles(i) {
            cache.push(requests[i].unwrap());
        }
        from = i + 1;
    }
    tried
}

#[test]
fn scoped_reload_destroys_unreferenced_and_compiles_new_chains_once() {
    let a = chain(&[("a", false)]);
    let b = chain(&[("b", true), ("c", false)]);
    let ka = scoped_key(&a);
    let kb = scoped_key(&b);
    let old = 42u64;
    assert!(old != ka && old != kb);
    let chains = vec![a.clone(), Vec::new(), b.clone(), a.clone()];
    assert_eq!(scoped_stale_keys(&[old, ka], &chains), vec![old]);
    assert_eq!(scoped_requests(&chains), vec![Some(ka), None, Some(kb), Some(ka)]);

    let mut cache = vec![old, ka];
    assert_eq!(run_reload(&mut cache, &chains, |_| true), vec![2]);
    assert_eq!(cache, vec![ka, kb]);

    let mut fresh = Vec::new();
    assert_eq!(run_reload(&mut fresh, &chains, |_| true), vec![0, 2]);
}

#[test]
fn a_chain_that_failed_is_tried_again_at_its_next_copy() {
    let a = chain(&[("a", false)]);
    let chains = vec![a.clone(), a.clone(), a.clone()];
    let mut cache = Vec::new();
    // The first copy fails, the second compiles, the third is then cached.
    assert_eq!(run_reload(&mut cache, &chains, |i| i == 1), vec![0, 1]);
    assert_eq!(cache, vec![scoped_key(&a)]);
}

#[test]
fn scoped_reload_with_no_chains_destroys_everything() {
    assert_eq!(scoped_stale_keys(&[1, 2, 3], &[]), vec![1, 2, 3]);
    assert_eq!(next_to_compile(&[1], &[], 0), None);
}

#[test]
fn unchanged_reload_compiles_nothing() {
    assert_eq!(next_to_compile(&[5, 7], &[Some(7), None, Some(5)], 0), None);
    assert_eq!(next_to_compile(&[5], &[Some(7), None, Some(5)], 1), None);
    assert_eq!(next_to_compile(&[5], &[Some(7), None, Some(9)], 1), Some(2));
}

#[test]
fn decoration_reload_shares_programs_by_key() {
    let plan = plan_decoration_programs(&[7, 9], &[Some(5), None, Some(7), Some(5), Some(11)]);
    assert_eq!(plan, ProgramPlan { destroy: vec![9], compile: vec![0, 4] });
}

#[test]
fn decoration_reload_without_changes_does_nothing() {
    let plan = plan_decoration_programs(&[5, 7], &[Some(7), Some(5)]);
    assert_eq!(plan, ProgramPlan { destroy: vec![], compile: vec![] });
}
