use niri::global_chain::{needs_buffer_program, set_global_passes, GlobalShaderChain};

fn passes(v: &[(&str, bool)]) -> Vec<(String, bool)> {
    v.iter().map(|(s, h)| (String::from(*s), *h)).collect()
}

const BUFFERED: &str = "vec4 global_buffer(vec3 c) { return vec4(0.); }";

#[test]
fn only_niri_passes_that_mention_the_buffer_get_one() {
    assert!(needs_buffer_program(BUFFERED, false));
    assert!(!needs_buffer_program(BUFFERED, true));
    assert!(!needs_buffer_program("vec4 global_color(vec3 c) { return vec4(0.); }", false));
}

#[test]
fn a_fully_compiled_chain_replaces_the_old_one() {
    let chain = passes(&[("a", false), (BUFFERED, false), (BUFFERED, true)]);
    let r = set_global_passes(
        vec![100u32],
        vec![Some(101)],
        &chain,
        &|src: &str, _h: bool| Some(src.len() as u32),
        &|_src: &str| Some(7),
    );
    assert_eq!(r.display, vec![1, BUFFERED.len() as u32, BUFFERED.len() as u32]);
    assert_eq!(r.buffers, vec![None, Some(7), None]);
    assert_eq!(r.discard, vec![100, 101]);
}

#[test]
fn a_failed_buffer_leaves_its_pass_without_one() {
    let chain = passes(&[(BUFFERED, false)]);
    let r = set_global_passes(Vec::new(), Vec::new(), &chain, &|_: &str, _: bool| Some(1u32), &|_: &str| None);
    assert_eq!(r.display, vec![1]);
    assert_eq!(r.buffers, vec![None]);
    assert!(r.discard.is_empty());
}

#[test]
fn a_partial_chain_is_dropped_and_destroyed() {
    let chain = passes(&[(BUFFERED, false), ("bad", false), ("c", false)]);
    let r = set_global_passes(
        vec![100u32],
        vec![None],
        &chain,
        &|src: &str, _: bool| if src == "bad" { None } else { Some(1u32) },
        &|_: &str| Some(4),
    );
    assert!(r.display.is_empty());
    assert!(r.buffers.is_empty());
    assert_eq!(r.discard, vec![100, 1, 4]);
}

#[test]
fn an_empty_chain_installs_nothing_and_destroys_the_old_one() {
    let r = set_global_passes(vec![5u32], vec![Some(6)], &[], &|_: &str, _: bool| Some(1u32), &|_: &str| Some(2));
    assert!(r.display.is_empty());
    assert_eq!(r.discard, vec![5, 6]);
}

#[test]
fn per_pass_state_survives_an_unchanged_chain_and_resets_on_a_new_length() {
    let mut c = GlobalShaderChain {
        prev: vec![Some(1u32), None],
        result: vec![10u8, 11],
        pass_offscreen: vec![20u16, 21],
        buffer: vec![30u16, 31],
        buffer_prev: vec![None, Some(2)],
        buffer_result: vec![12u8, 13],
    };
    assert!(!c.resize(2, &|| 0u8, &|| 0u16));
    assert_eq!(c.prev, vec![Some(1), None]);
    assert_eq!(c.result, vec![10, 11]);
    assert_eq!(c.buffer, vec![30, 31]);
    assert!(c.resize(3, &|| 0u8, &|| 9u16));
    assert_eq!(c.prev, vec![None, None, None]);
    assert_eq!(c.buffer_prev, vec![None, None, None]);
    assert_eq!(c.result, vec![0, 0, 0]);
    assert_eq!(c.buffer_result, vec![0, 0, 0]);
    assert_eq!(c.pass_offscreen, vec![9, 9, 9]);
    assert_eq!(c.buffer, vec![9, 9, 9]);
}
