use niri::global_shader::GlobalShaderPassPart;
use niri::region_shader::{Geometry, RegionShader, RegionShaderPart};
use niri::window_shaders::{WindowShaderPreset, WindowShadersPart};

fn s(text: &str) -> Option<String> {
    Some(String::from(text))
}

#[test]
fn region_pass_sources_resolves() {
    let region_shaders = [
        RegionShader::from_part(RegionShaderPart {
            source: s("A"),
            ..Default::default()
        }),
        RegionShader::from_part(RegionShaderPart {
            passes: vec![
                GlobalShaderPassPart {
                    source: s("B"),
                    ..Default::default()
                },
                GlobalShaderPassPart {
                    path: s("p.frag"),
                    ..Default::default()
                },
            ],
            ..Default::default()
        }),
    ];
    // Top-level source -> length-1 chain.
    let r0 = region_shaders[0].pass_sources(|_: &str| None);
    assert_eq!(r0, vec![("A".to_string(), false)]);
    // Pass chain: inline B + resolved path.
    let r1 = region_shaders[1].pass_sources(|p: &str| {
        assert_eq!(p, "p.frag");
        Some("C".to_string())
    });
    assert_eq!(r1, vec![("B".to_string(), false), ("C".to_string(), false)]);
    // Unresolvable path -> empty (disabled).
    let r1_bad = region_shaders[1].pass_sources(|_: &str| None);
    assert!(r1_bad.is_empty());
}

/// The presets of the given `window-shaders` blocks, in config order.
fn presets_of(blocks: Vec<WindowShadersPart>) -> Vec<WindowShaderPreset> {
    blocks.into_iter().flat_map(|b| b.presets).collect()
}

#[test]
fn window_shaders_presets_parse() {
    let window_shaders = presets_of(vec![WindowShadersPart {
        presets: vec![
            WindowShaderPreset {
                name: String::from("fire"),
                source: s("vec4 global_color(vec3 c){ return tex2D_screen(c.xy).bgra; }"),
                ..Default::default()
            },
            WindowShaderPreset {
                name: String::from("crt"),
                source: s("vec4 global_color(vec3 c){ return vec4(c.xy, 0.0, 1.0); }"),
                mode: s("hyprland"),
                ..Default::default()
            },
        ],
    }]);

    assert_eq!(window_shaders.len(), 2);

    let fire = &window_shaders[0];
    assert_eq!(fire.name, "fire");
    let chain = fire.pass_sources(|_: &str| None);
    assert_eq!(chain.len(), 1);
    assert!(chain[0].0.contains("bgra"));
    assert!(!chain[0].1);

    let crt = &window_shaders[1];
    assert_eq!(crt.name, "crt");
    let chain = crt.pass_sources(|_: &str| None);
    assert_eq!(chain.len(), 1);
    assert!(chain[0].1);
}

#[test]
fn window_shaders_blocks_accumulate() {
    let window_shaders = presets_of(vec![
        WindowShadersPart {
            presets: vec![WindowShaderPreset {
                name: String::from("a"),
                source: s("vec4 global_color(vec3 c){ return vec4(1.0); }"),
                ..Default::default()
            }],
        },
        WindowShadersPart {
            presets: vec![WindowShaderPreset {
                name: String::from("b"),
                source: s("vec4 global_color(vec3 c){ return vec4(0.0); }"),
                ..Default::default()
            }],
        },
    ]);

    let names: Vec<_> = window_shaders.iter().map(|p| p.name.as_str()).collect();
    assert_eq!(names, ["a", "b"]);
}

const PX: i64 = 1_000_000;

#[test]
fn region_shader_parses() {
    let region_shaders = [
        RegionShader::from_part(RegionShaderPart {
            geometry: Some(Geometry { x: 100 * PX, y: 100 * PX, width: 800 * PX, height: 600 * PX }),
            output: s("DP-1"),
            source: s("vec4 global_color(vec3 c){ return tex2D_screen(c.xy); }"),
            ..Default::default()
        }),
        RegionShader::from_part(RegionShaderPart {
            geometry: Some(Geometry { x: 0, y: 0, width: 1920 * PX, height: 40 * PX }),
            source: s("vec4 global_color(vec3 c){ return tex2D_screen(c.xy)*0.5; }"),
            ..Default::default()
        }),
    ];
    assert_eq!(region_shaders.len(), 2);
    assert_eq!(region_shaders[0].geometry.width, 800 * PX);
    assert_eq!(region_shaders[0].output.as_deref(), Some("DP-1"));
    assert!(region_shaders[1].output.is_none());
    assert_eq!(region_shaders[1].geometry.height, 40 * PX);
}

#[test]
fn region_without_geometry_is_empty_at_origin() {
    let r = RegionShader::from_part(RegionShaderPart { source: s("A"), ..Default::default() });
    assert_eq!(r.geometry, Geometry::default());
    assert_eq!(r.mode, "niri");
}
