use niri::output_shader_config::{OutputShaderPart, OutputShaderPassPart, OutputShaderPreset, PresetRef};
use niri::shader_presets::{ChannelScale, ShaderPresetRefPart};

fn no_files(_: &str) -> Option<String> {
    None
}

fn s(text: &str) -> Option<String> {
    Some(String::from(text))
}

/// The black-body multipliers of a colour temperature, normalised to 6500 K, in millionths.
fn kelvin_scale(kelvin: f64) -> ChannelScale {
    fn raw(kelvin: f64) -> (f64, f64, f64) {
        let t = kelvin.clamp(1000.0, 40000.0) / 100.0;
        let r = if t <= 66.0 {
            255.0
        } else {
            329.698_727_446 * (t - 60.0).powf(-0.133_204_759_2)
        };
        let g = if t <= 66.0 {
            99.470_802_586 * t.ln() - 161.119_568_166
        } else {
            288.122_169_528 * (t - 60.0).powf(-0.075_514_849_2)
        };
        let b = if t >= 66.0 {
            255.0
        } else if t <= 19.0 {
            0.0
        } else {
            138.517_731_223 * (t - 10.0).ln() - 305.044_792_729
        };
        (
            r.clamp(0.0, 255.0) / 255.0,
            g.clamp(0.0, 255.0) / 255.0,
            b.clamp(0.0, 255.0) / 255.0,
        )
    }
    let (r, g, b) = raw(kelvin);
    let (rw, gw, bw) = raw(6500.0);
    let (r, g, b) = (r / rw, g / gw, b / bw);
    let max = r.max(g).max(b);
    let (r, g, b) = if max > 1.0 { (r / max, g / max, b / max) } else { (r, g, b) };
    let m = |x: f64| (x * 1_000_000.0).round() as u64;
    ChannelScale { r: m(r), g: m(g), b: m(b) }
}

fn preset_ref(name: &str, kelvin: Option<f64>) -> ShaderPresetRefPart {
    ShaderPresetRefPart {
        name: String::from(name),
        amount: None,
        kelvin: kelvin.map(|k| (k * 1_000_000.0) as u64),
        kelvin_rgb: kelvin_scale(kelvin.unwrap_or(4000.0)),
    }
}

fn preset(name: &str) -> OutputShaderPreset {
    OutputShaderPreset {
        name: String::from(name),
        ..Default::default()
    }
}

#[test]
fn output_shaders_presets_parse_and_accumulate() {
    // Two `output-shaders` blocks accumulate in config order.
    let output_shaders = [
        OutputShaderPreset {
            preset: Some(preset_ref("temperature", Some(3200.0))),
            ..preset("night")
        },
        OutputShaderPreset {
            preset: Some(preset_ref("grayscale", None)),
            ..preset("mono")
        },
    ];

    let names: Vec<_> = output_shaders.iter().map(|p| p.name.as_str()).collect();
    assert_eq!(names, ["night", "mono"]);

    let night = output_shaders[0].pass_sources(&no_files);
    assert_eq!(night.len(), 1);
    assert!(
        night[0].0.contains("c.rgb * vec3("),
        "not a temperature filter: {night:?}"
    );
    assert!(!night[0].1, "built-ins are never Hyprland dialect");

    let mono = output_shaders[1].pass_sources(&no_files);
    assert_eq!(mono.len(), 1);
    assert!(mono[0].0.contains("float l = dot"), "not grayscale: {mono:?}");
}

#[test]
fn output_shaders_preset_accepts_inline_source_and_pass_chain() {
    let output_shaders = [
        OutputShaderPreset {
            source: s("vec4 global_color(vec3 c){ return tex2D_screen(c.xy).bgra; }"),
            ..preset("raw")
        },
        OutputShaderPreset {
            passes: vec![
                OutputShaderPassPart {
                    preset: Some(preset_ref("grayscale", None)),
                    ..Default::default()
                },
                OutputShaderPassPart {
                    preset: Some(preset_ref("temperature", Some(3500.0))),
                    ..Default::default()
                },
            ],
            ..preset("warm-mono")
        },
    ];

    let raw = output_shaders[0].pass_sources(&no_files);
    assert_eq!(raw.len(), 1);
    assert!(raw[0].0.contains("bgra"));

    let chain = output_shaders[1].pass_sources(&no_files);
    assert_eq!(chain.len(), 2, "pass chain did not resolve: {chain:?}");
    assert!(chain[0].0.contains("float l = dot"));
    assert!(chain[1].0.contains("c.rgb * vec3("));
}

#[test]
fn unknown_preset_name_disables_the_chain() {
    let output_shaders = [OutputShaderPreset {
        preset: Some(preset_ref("no-such-filter", None)),
        ..preset("broken")
    }];
    assert!(output_shaders[0].pass_sources(&no_files).is_empty());
}

#[test]
fn unresolvable_path_disables_the_chain() {
    let output_shaders = [OutputShaderPreset {
        passes: vec![
            OutputShaderPassPart {
                preset: Some(preset_ref("grayscale", None)),
                ..Default::default()
            },
            OutputShaderPassPart {
                path: s("missing.frag"),
                ..Default::default()
            },
        ],
        ..preset("fromfile")
    }];
    assert!(output_shaders[0].pass_sources(&no_files).is_empty());
}

#[test]
fn hyprland_mode_is_carried_for_hand_written_sources() {
    let output_shaders = [OutputShaderPreset {
        source: s("void main(){ gl_FragColor = vec4(1.0); }"),
        mode: s("hyprland"),
        ..preset("hypr")
    }];
    let chain = output_shaders[0].pass_sources(&no_files);
    assert_eq!(chain.len(), 1);
    assert!(chain[0].1, "mode \"hyprland\" was dropped");
}

#[test]
fn builtin_references_reached_are_listed_for_warnings() {
    let top = OutputShaderPart { preset: Some(preset_ref("grayscale", None)), ..Default::default() };
    assert_eq!(top.builtin_preset_refs(&[]), vec![PresetRef::Top]);

    let with_source = OutputShaderPart { source: s("x"), preset: Some(preset_ref("grayscale", None)), ..Default::default() };
    assert!(with_source.builtin_preset_refs(&[]).is_empty());

    let passes = OutputShaderPart {
        preset: Some(preset_ref("invert", None)),
        passes: vec![
            OutputShaderPassPart { source: s("a"), ..Default::default() },
            OutputShaderPassPart { preset: Some(preset_ref("invert", None)), ..Default::default() },
        ],
        ..Default::default()
    };
    assert_eq!(passes.builtin_preset_refs(&[]), vec![PresetRef::Pass(1)]);

    let user = OutputShaderPreset {
        passes: vec![OutputShaderPassPart { preset: Some(preset_ref("temperature", None)), ..Default::default() }],
        ..preset("night")
    };
    let by_name = OutputShaderPart { preset: Some(preset_ref("night", None)), ..Default::default() };
    assert_eq!(by_name.builtin_preset_refs(&[preset("other"), user]), vec![PresetRef::UserPass(1, 0)]);
}
