use std::hash::{Hash, Hasher};

use niri::compositor::{
    global_shader_pass_sources, scoped_shader_chains, shader_animate, PointerVisibility,
};
use niri::global_shader::{Flag, GlobalShader, GlobalShaderPart, GlobalShaderPassPart, MergeWith};
use niri::region_shader::{RegionShader, RegionShaderPart};
use niri::shaders::scoped_key;
use niri::window_shaders::WindowShaderPreset;

fn s(text: &str) -> Option<String> {
    Some(String::from(text))
}

fn files(p: &str) -> Option<String> {
    match p {
        "blur.frag" => Some(String::from("vec4 global_color(vec3 c){ return vec4(1.0); }")),
        _ => None,
    }
}

#[test]
fn disabled_global_shader_has_no_passes() {
    let mut cfg = GlobalShader::default();
    cfg.merge_with(&GlobalShaderPart {
        source: s("vec4 global_color(vec3 c){ return tex2D_screen(c.xy); }"),
        ..Default::default()
    });
    assert!(global_shader_pass_sources(&cfg, &files).is_empty());
}

#[test]
fn global_shader_single_and_chained() {
    let mut cfg = GlobalShader::default();
    cfg.merge_with(&GlobalShaderPart {
        enable: Some(Flag(true)),
        path: s("blur.frag"),
        mode: s("hyprland"),
        ..Default::default()
    });
    assert_eq!(
        global_shader_pass_sources(&cfg, &files),
        vec![(String::from("vec4 global_color(vec3 c){ return vec4(1.0); }"), true)]
    );
    cfg.merge_with(&GlobalShaderPart {
        passes: vec![
            GlobalShaderPassPart {
                path: s("blur.frag"),
                mode: s("niri"),
                ..Default::default()
            },
            GlobalShaderPassPart {
                source: s("   "),
                ..Default::default()
            },
        ],
        ..Default::default()
    });
    // An empty inline pass disables the whole chain.
    assert!(global_shader_pass_sources(&cfg, &files).is_empty());
}

#[test]
fn scoped_chains_keep_regions_and_skip_empty_rules() {
    let regions = [
        RegionShader::from_part(RegionShaderPart {
            source: s("A"),
            ..Default::default()
        }),
        RegionShader::from_part(RegionShaderPart {
            path: s("missing.frag"),
            ..Default::default()
        }),
    ];
    let rules = [
        WindowShaderPreset {
            source: s("B"),
            mode: s("hyprland"),
            ..Default::default()
        },
        WindowShaderPreset {
            path: s("missing.frag"),
            ..Default::default()
        },
    ];
    let chains = scoped_shader_chains(&regions, &rules, &files);
    assert_eq!(
        chains,
        vec![
            vec![(String::from("A"), false)],
            vec![],
            vec![(String::from("B"), true)],
        ]
    );
}

#[test]
fn scoped_key_is_a_function_of_the_pass_list() {
    let a = vec![(String::from("A"), false), (String::from("B"), true)];
    let b = a.clone();
    let c = vec![(String::from("A"), false), (String::from("B"), false)];
    assert_eq!(scoped_key(&a), scoped_key(&b));
    assert_ne!(scoped_key(&a), scoped_key(&c));
}

#[test]
fn scoped_key_matches_hashing_the_pass_list() {
    let passes = vec![(String::from("src"), true), (String::from("other"), false)];
    let mut h = std::collections::hash_map::DefaultHasher::new();
    for (src, hypr) in &passes {
        src.hash(&mut h);
        hypr.hash(&mut h);
    }
    assert_eq!(scoped_key(&passes), h.finish());
}

#[test]
fn only_a_visible_pointer_is_visible() {
    assert!(PointerVisibility::Visible.is_visible());
    assert!(!PointerVisibility::Hidden.is_visible());
    assert!(!PointerVisibility::Disabled.is_visible());
}

fn ch(src: &str) -> Vec<(String, bool)> {
    vec![(String::from(src), false)]
}

const ANIMATED: &str = "vec4 global_color(vec3 c) { return tex2D_screen(c.xy) * sin(niri_time); }";
const STATIC: &str = "vec4 global_color(vec3 c) { return tex2D_screen(c.xy); }";

#[test]
fn animated_global_shader_forces_redraws_by_mode() {
    let mut cfg = GlobalShader { enable: true, ..Default::default() };
    assert!(shader_animate(&cfg, &ch(ANIMATED), "DP-1", &[], &[], false));
    assert!(!shader_animate(&cfg, &ch(STATIC), "DP-1", &[], &[], false));
    cfg.redraw = String::from("continuous");
    assert!(shader_animate(&cfg, &ch(STATIC), "DP-1", &[], &[], false));
    cfg.redraw = String::from("on-damage");
    assert!(!shader_animate(&cfg, &ch(ANIMATED), "DP-1", &[], &[], false));
    cfg.enable = false;
    cfg.redraw = String::from("continuous");
    assert!(!shader_animate(&cfg, &ch(ANIMATED), "DP-1", &[], &[], false));
}

#[test]
fn region_shaders_animate_only_on_their_output() {
    let cfg = GlobalShader::default();
    let regions = vec![(s("DP-2"), ch(ANIMATED)), (None, ch(STATIC))];
    assert!(!shader_animate(&cfg, &[], "DP-1", &regions, &[], false));
    assert!(shader_animate(&cfg, &[], "DP-2", &regions, &[], false));
    let everywhere = vec![(None, ch(ANIMATED))];
    assert!(shader_animate(&cfg, &[], "DP-1", &everywhere, &[], false));
}

#[test]
fn window_shaders_animate_only_while_visible() {
    let cfg = GlobalShader::default();
    let hidden = vec![(false, ch(ANIMATED)), (true, ch(STATIC))];
    assert!(!shader_animate(&cfg, &[], "DP-1", &[], &hidden, false));
    assert!(shader_animate(&cfg, &[], "DP-1", &[], &hidden, true), "the overview shows every window");
    let shown = vec![(true, ch(ANIMATED))];
    assert!(shader_animate(&cfg, &[], "DP-1", &[], &shown, false));
}

#[test]
fn only_chain_settings_force_a_global_rebuild() {
    let old = GlobalShader { enable: true, source: s("x"), ..Default::default() };
    let cursor_only = GlobalShader { reads_cursor: true, ..old.clone() };
    assert!(!cursor_only.needs_rebuild(&old));
    assert!(!old.clone().needs_rebuild(&old));
    let radius = GlobalShader { cursor_radius: Some(40), ..old.clone() };
    assert!(radius.needs_rebuild(&old));
    let redraw = GlobalShader { redraw: String::from("continuous"), ..old.clone() };
    assert!(redraw.needs_rebuild(&old));
    let pass = GlobalShader { passes: vec![niri::global_shader::GlobalShaderPass { source: s("x"), path: None, mode: String::from("niri") }], ..old.clone() };
    assert!(pass.needs_rebuild(&old));
}

fn caps(time: bool, cursor: bool) -> niri::global_shader::GlobalShaderCaps {
    niri::global_shader::GlobalShaderCaps { uses_time: time, uses_cursor: cursor, uses_prev: false, uses_buffer: false }
}

#[test]
fn global_shader_stays_out_of_captures_by_default() {
    let c = caps(false, true);
    let live = niri::compositor::global_shader_render_plan(true, false, true, true, false, None, c, 1);
    assert!(live.push && live.live_feedback && !live.above_pointer && !live.region_mode);
    let cast = niri::compositor::global_shader_render_plan(false, false, true, true, false, None, c, 1);
    assert!(!cast.push);
    let cast_opt_in = niri::compositor::global_shader_render_plan(false, true, true, true, false, None, c, 1);
    assert!(cast_opt_in.push && !cast_opt_in.live_feedback);
    let not_loaded = niri::compositor::global_shader_render_plan(true, true, false, true, false, None, c, 1);
    assert!(!not_loaded.push);
}

#[test]
fn reads_cursor_draws_above_the_pointer_and_radius_limits_the_region() {
    let c = caps(false, true);
    let p = niri::compositor::global_shader_render_plan(true, false, true, true, true, Some(40), c, 1);
    assert!(p.above_pointer && p.region_mode);
    let off = niri::compositor::global_shader_render_plan(true, false, true, false, true, Some(40), c, 1);
    assert!(!off.above_pointer);
    assert!(!niri::compositor::global_shader_render_plan(true, false, true, true, true, Some(0), c, 1).region_mode);
    assert!(!niri::compositor::global_shader_render_plan(true, false, true, true, true, Some(40), caps(true, true), 1).region_mode);
    assert!(!niri::compositor::global_shader_render_plan(true, false, true, true, true, Some(40), caps(false, false), 1).region_mode);
    assert!(!niri::compositor::global_shader_render_plan(true, false, true, true, true, Some(40), c, 2).region_mode);
}

#[test]
fn regions_drawn_are_those_on_this_output_with_a_loaded_program() {
    let a = vec![(String::from("A"), false)];
    let b = vec![(String::from("B"), false)];
    let ka = scoped_key(&a);
    let kb = scoped_key(&b);
    let regions = vec![(s("DP-1"), a.clone()), (s("DP-2"), b.clone()), (None, Vec::new()), (None, b.clone())];
    assert_eq!(
        niri::compositor::regions_to_draw(true, false, "DP-1", &regions, &[ka, kb]),
        vec![(0, ka), (3, kb)]
    );
    assert_eq!(niri::compositor::regions_to_draw(true, false, "DP-1", &regions, &[kb]), vec![(3, kb)]);
    assert!(niri::compositor::regions_to_draw(false, false, "DP-1", &regions, &[ka, kb]).is_empty());
    assert_eq!(niri::compositor::regions_to_draw(false, true, "DP-2", &regions, &[ka, kb]), vec![(1, kb), (3, kb)]);
}
