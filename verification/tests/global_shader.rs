use niri::global_shader::{
    Flag, GlobalShader, GlobalShaderCaps, GlobalShaderPart, GlobalShaderPassPart, MergeWith,
    RedrawMode,
};

/// The configuration after applying the given `global-shader` blocks to the defaults.
fn config_with(parts: &[GlobalShaderPart]) -> GlobalShader {
    let mut shader = GlobalShader::default();
    for part in parts {
        shader.merge_with(part);
    }
    shader
}

fn s(text: &str) -> Option<String> {
    Some(String::from(text))
}

#[test]
fn caps_scan_niri_dialect() {
    let c = GlobalShaderCaps::scan(
        "vec4 global_color(vec3 c){ return tex2D_prev(c.xy)*niri_time + niri_cursor.x; }",
        false,
    );
    assert_eq!(
        c,
        GlobalShaderCaps {
            uses_time: true,
            uses_cursor: true,
            uses_prev: true,
            uses_buffer: false
        }
    );
}

#[test]
fn caps_scan_static_filter() {
    let c = GlobalShaderCaps::scan("vec4 global_color(vec3 c){ return tex2D_screen(c.xy); }", false);
    assert_eq!(c, GlobalShaderCaps::default());
    assert!(!c.is_animating());
}

#[test]
fn caps_scan_time_only_is_animating() {
    let c = GlobalShaderCaps::scan("vec4 global_color(vec3 c){ return vec4(niri_time); }", false);
    assert!(c.uses_time && !c.uses_cursor && !c.uses_prev);
    assert!(c.is_animating());
}

#[test]
fn caps_scan_hyprland_dialect() {
    let with = GlobalShaderCaps::scan("void main(){ gl_FragColor = vec4(time); }", true);
    assert!(with.uses_time && !with.uses_cursor && !with.uses_prev);
    let without = GlobalShaderCaps::scan(
        "void main(){ gl_FragColor = texture2D(tex, v_texcoord); }",
        true,
    );
    assert!(!without.is_animating());
}

#[test]
fn caps_scan_buffer_function() {
    let c = GlobalShaderCaps::scan(
        "vec4 global_buffer(vec3 c){ return tex2D_buffer(c.xy); } vec4 global_color(vec3 c){ return tex2D_screen(c.xy); }",
        false,
    );
    assert!(c.uses_buffer);
    assert!(c.is_animating());
}

#[test]
fn caps_scan_screen_prev_is_feedback() {
    let c = GlobalShaderCaps::scan(
        "vec4 global_color(vec3 c){ return tex2D_screen(c.xy) - tex2D_screen_prev(c.xy); }",
        false,
    );
    assert!(c.uses_prev);
    assert!(c.is_animating());
}

#[test]
fn caps_scan_plain_filter_not_buffer() {
    let c = GlobalShaderCaps::scan("vec4 global_color(vec3 c){ return tex2D_screen(c.xy); }", false);
    assert!(!c.uses_buffer);
    assert!(!c.is_animating());
}

#[test]
fn redraw_mode_parse_and_decision() {
    let animating = GlobalShaderCaps {
        uses_time: true,
        ..Default::default()
    };
    let static_ = GlobalShaderCaps::default();
    assert!(RedrawMode::parse("auto").wants_continuous_redraw(animating));
    assert!(!RedrawMode::parse("auto").wants_continuous_redraw(static_));
    assert!(!RedrawMode::parse("on-damage").wants_continuous_redraw(animating));
    assert!(RedrawMode::parse("continuous").wants_continuous_redraw(static_));
    assert_eq!(RedrawMode::parse("bogus"), RedrawMode::Auto);
}

#[test]
fn global_shader_defaults_disabled() {
    let config = config_with(&[]);
    assert!(!config.enable);
    assert_eq!(config.mode, "niri");
    assert!(config.source.is_none());
    assert!(!config.reads_cursor);
}

#[test]
fn global_shader_inline_source() {
    let config = config_with(&[GlobalShaderPart {
        enable: Some(Flag(true)),
        source: s("vec4 global_color(vec3 c) { return tex2D_screen(c.xy); }"),
        mode: s("niri"),
        reads_cursor: Some(Flag(true)),
        ..Default::default()
    }]);
    assert!(config.enable);
    assert!(config.reads_cursor);
    assert_eq!(config.mode, "niri");
    assert_eq!(
        config.source.as_deref(),
        Some("vec4 global_color(vec3 c) { return tex2D_screen(c.xy); }")
    );
}

#[test]
fn global_shader_redraw_and_cursor_radius() {
    let config = config_with(&[GlobalShaderPart {
        enable: Some(Flag(true)),
        source: s("vec4 global_color(vec3 c) { return tex2D_screen(c.xy); }"),
        cursor_radius: Some(200),
        redraw: s("continuous"),
        ..Default::default()
    }]);
    assert_eq!(config.cursor_radius, Some(200));
    assert_eq!(config.redraw, "continuous");
}

#[test]
fn global_shader_redraw_defaults_to_auto() {
    let config = config_with(&[]);
    assert_eq!(config.redraw, "auto");
    assert_eq!(config.cursor_radius, None);
}

#[test]
fn global_shader_path_and_hyprland_mode() {
    let config = config_with(&[GlobalShaderPart {
        enable: Some(Flag(true)),
        path: s("/tmp/crt.frag"),
        mode: s("hyprland"),
        ..Default::default()
    }]);
    assert_eq!(config.path.as_deref(), Some("/tmp/crt.frag"));
    assert_eq!(config.mode, "hyprland");
}

#[test]
fn global_shader_pass_list_parses() {
    let config = config_with(&[GlobalShaderPart {
        enable: Some(Flag(true)),
        passes: vec![
            GlobalShaderPassPart {
                path: s("blur.frag"),
                ..Default::default()
            },
            GlobalShaderPassPart {
                source: s("vec4 global_color(vec3 c){ return tex2D_screen(c.xy); }"),
                mode: s("niri"),
                ..Default::default()
            },
            GlobalShaderPassPart {
                path: s("crt.frag"),
                mode: s("hyprland"),
                ..Default::default()
            },
        ],
        ..Default::default()
    }]);
    assert!(config.enable);
    assert_eq!(config.passes.len(), 3);
    assert_eq!(config.passes[0].path.as_deref(), Some("blur.frag"));
    assert_eq!(
        config.passes[1].source.as_deref(),
        Some("vec4 global_color(vec3 c){ return tex2D_screen(c.xy); }")
    );
    assert_eq!(config.passes[1].mode, "niri");
    assert_eq!(config.passes[2].mode, "hyprland");
}

#[test]
fn caps_scan_chain_union() {
    let chain = [
        (
            "vec4 global_color(vec3 c){ return tex2D_screen(c.xy); }".to_string(),
            false,
        ),
        (
            "vec4 global_color(vec3 c){ return vec4(niri_time); }".to_string(),
            false,
        ),
    ];
    let caps = GlobalShaderCaps::scan_chain(&chain);
    assert!(caps.uses_time);
    assert!(caps.is_animating());

    let static_chain = [
        (
            "vec4 global_color(vec3 c){ return tex2D_screen(c.xy); }".to_string(),
            false,
        ),
        (
            "vec4 global_color(vec3 c){ return tex2D_screen(c.xy).gbra; }".to_string(),
            false,
        ),
    ];
    let caps = GlobalShaderCaps::scan_chain(&static_chain);
    assert!(!caps.is_animating());
}

#[test]
fn global_shader_no_passes_back_compat() {
    let config = config_with(&[GlobalShaderPart {
        enable: Some(Flag(true)),
        source: s("vec4 global_color(vec3 c){ return tex2D_screen(c.xy); }"),
        ..Default::default()
    }]);
    assert!(config.passes.is_empty());
    assert!(config.source.is_some());
}

#[test]
fn global_shader_pass_mode_inherits_block_mode() {
    let config = config_with(&[GlobalShaderPart {
        enable: Some(Flag(true)),
        mode: s("hyprland"),
        passes: vec![
            GlobalShaderPassPart {
                path: s("a.frag"),
                ..Default::default()
            },
            GlobalShaderPassPart {
                path: s("b.frag"),
                mode: s("niri"),
                ..Default::default()
            },
        ],
        ..Default::default()
    }]);
    assert_eq!(config.passes[0].mode, "hyprland");
    assert_eq!(config.passes[1].mode, "niri");
}
