use std::cell::Cell;
use std::collections::HashMap;

use niri::decoration_shader::{DecorationShader, DecorationShaderPart, MICROS};
use niri::program_install::{install_decoration_programs, install_scoped_programs};
use niri::shaders::scoped_key;

fn chain(parts: &[(&str, bool)]) -> Vec<(String, bool)> {
    parts.iter().map(|(s, h)| (String::from(*s), *h)).collect()
}

fn deco(source: &str) -> DecorationShader {
    DecorationShader::resolve(
        DecorationShaderPart {
            source: Some(String::from(source)),
            path: None,
            enable: true,
            animated: true,
            speed: MICROS,
            padding: 0,
            draw_inside: false,
            light: None,
        },
        None,
    )
    .unwrap()
}

#[test]
fn scoped_install_keeps_wanted_destroys_stale_and_compiles_missing_once() {
    let a = chain(&[("a", false)]);
    let b = chain(&[("b", true)]);
    let (ka, kb) = (scoped_key(&a), scoped_key(&b));
    let chains = vec![b.clone(), Vec::new(), a.clone(), b.clone()];
    let mut cache: HashMap<u64, Vec<u32>> = HashMap::new();
    cache.insert(42, vec![0]);
    cache.insert(ka, vec![1]);
    let calls = Cell::new(0u32);
    let discard = install_scoped_programs(&mut cache, &chains, &|c: &[(String, bool)]| {
        calls.set(calls.get() + 1);
        Some(c.iter().map(|(s, _)| s.len() as u32 + 10).collect())
    });
    assert_eq!(discard, vec![(42, vec![0])]);
    let mut expected = HashMap::new();
    expected.insert(ka, vec![1]);
    expected.insert(kb, vec![11]);
    assert_eq!(cache, expected);
    assert_eq!(calls.get(), 1);
}

#[test]
fn scoped_install_retries_a_failed_chain_at_its_next_copy() {
    let a = chain(&[("a", false)]);
    let chains = vec![a.clone(), a.clone()];
    // Every compile fails: both copies are tried, nothing is cached.
    let mut cache: HashMap<u64, Vec<u32>> = HashMap::new();
    let calls = Cell::new(0u32);
    let discard = install_scoped_programs(&mut cache, &chains, &|_: &[(String, bool)]| {
        calls.set(calls.get() + 1);
        None
    });
    assert!(cache.is_empty());
    assert!(discard.is_empty());
    assert_eq!(calls.get(), 2);
}

#[test]
fn decoration_install_compiles_each_key_once() {
    let x = deco("x");
    let y = deco("y");
    let kx = x.key().unwrap();
    let ky = y.key().unwrap();
    let shaders = vec![x.clone(), y.clone(), x.clone()];
    let mut cache: HashMap<u64, u32> = HashMap::new();
    cache.insert(1, 100);
    cache.insert(ky, 200);
    let calls = Cell::new(0u32);
    let discard = install_decoration_programs(&mut cache, &shaders, &|s: Option<&str>| {
        calls.set(calls.get() + 1);
        s.map(|t| t.len() as u32)
    });
    assert_eq!(discard, vec![(1, 100)]);
    let mut expected = HashMap::new();
    expected.insert(ky, 200);
    expected.insert(kx, 1);
    assert_eq!(cache, expected);
    assert_eq!(calls.get(), 1);
}

#[test]
fn a_failed_decoration_program_is_left_out() {
    let x = deco("x");
    let mut cache: HashMap<u64, u32> = HashMap::new();
    let discard = install_decoration_programs(&mut cache, &[x], &|_: Option<&str>| None);
    assert!(cache.is_empty());
    assert!(discard.is_empty());
}
