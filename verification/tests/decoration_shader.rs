use niri::decoration_shader::{
    DecorationLight, DecorationShader, DecorationShaderError, DecorationShaderPart, MICROS,
};

fn s(text: &str) -> Option<String> {
    Some(String::from(text))
}

/// A block with the defaults of an empty `shader { }`.
fn part() -> DecorationShaderPart {
    DecorationShaderPart {
        source: None,
        path: None,
        enable: true,
        animated: true,
        speed: MICROS,
        padding: 0,
        draw_inside: false,
        light: None,
    }
}

fn with_source(text: &str) -> DecorationShaderPart {
    DecorationShaderPart { source: s(text), ..part() }
}

/// `light;` with its default properties.
fn default_light() -> DecorationLight {
    DecorationLight { enable: true, spread: 80 * MICROS, intensity: MICROS, threshold: MICROS / 2 }
}

#[test]
fn source_and_path_together_are_refused() {
    let r = DecorationShader::resolve(DecorationShaderPart { path: s("/y"), ..with_source("x") }, None);
    assert_eq!(r.unwrap_err(), DecorationShaderError::SourceAndPath);
}

#[test]
fn an_enabled_shader_needs_a_source() {
    let r = DecorationShader::resolve(part(), None);
    assert_eq!(r.unwrap_err(), DecorationShaderError::MissingSource);
    // A disabled block may leave both out.
    let off = DecorationShader::resolve(DecorationShaderPart { enable: false, ..part() }, None).unwrap();
    assert_eq!(off.key(), None);
    assert_eq!(off.source(), None);
}

#[test]
fn key_is_content_addressed_and_disabled_shaders_have_none() {
    let a = DecorationShader::resolve(with_source("global"), None).unwrap();
    let b = DecorationShader::resolve(
        DecorationShaderPart { animated: false, draw_inside: true, padding: 12 * MICROS, ..with_source("global") },
        None,
    )
    .unwrap();
    let c = DecorationShader::resolve(with_source("per-window"), None).unwrap();
    assert!(a.key().is_some());
    assert_eq!(a.key(), b.key());
    assert_ne!(a.key(), c.key());
    assert_eq!(c.source(), Some("per-window"));
    let off = DecorationShader::resolve(DecorationShaderPart { enable: false, ..with_source("global") }, None)
        .unwrap();
    assert_eq!(off.key(), None);
}

#[test]
fn a_read_path_supplies_the_source_and_a_missing_file_leaves_none() {
    let read = DecorationShader::resolve(
        DecorationShaderPart { path: s("/tmp/ring/a.frag"), ..part() },
        s("vec4 ring_color(vec2 p) { return vec4(1.); }"),
    )
    .unwrap();
    assert_eq!(read.source(), Some("vec4 ring_color(vec2 p) { return vec4(1.); }"));
    assert_eq!(read.path.as_deref(), Some("/tmp/ring/a.frag"));
    let missing =
        DecorationShader::resolve(DecorationShaderPart { path: s("/tmp/ring/missing.frag"), ..part() }, None)
            .unwrap();
    assert_eq!(missing.source(), None);
    assert_eq!(missing.key(), None);
}

#[test]
fn rejects_invalid_shader_settings() {
    let light = |f: fn(&mut DecorationLight)| {
        let mut l = default_light();
        f(&mut l);
        DecorationShaderPart { light: Some(l), ..with_source("x") }
    };
    let cases: Vec<(&str, DecorationShaderPart)> = vec![
        ("", part()),
        ("source \"x\"; path \"y\";", DecorationShaderPart { path: s("y"), ..with_source("x") }),
        ("source \"x\"; padding -1;", DecorationShaderPart { padding: -MICROS, ..with_source("x") }),
        ("source \"x\"; speed 11;", DecorationShaderPart { speed: 11 * MICROS, ..with_source("x") }),
        ("source \"x\"; light spread=0;", light(|l| l.spread = 0)),
        ("source \"x\"; light spread=257;", light(|l| l.spread = 257 * MICROS)),
        ("source \"x\"; light intensity=-1;", light(|l| l.intensity = -MICROS)),
        ("source \"x\"; light intensity=5;", light(|l| l.intensity = 5 * MICROS)),
        ("source \"x\"; light threshold=1.1;", light(|l| l.threshold = 1_100_000)),
    ];
    for (fields, p) in cases {
        assert!(DecorationShader::resolve(p, None).is_err(), "{fields}");
    }
}

#[test]
fn out_of_range_settings_are_reported_first() {
    let r = DecorationShader::resolve(
        DecorationShaderPart { path: s("y"), speed: 11 * MICROS, ..with_source("x") },
        None,
    );
    assert_eq!(r.unwrap_err(), DecorationShaderError::OutOfRange);
    let edge = DecorationShader::resolve(
        DecorationShaderPart { speed: 10 * MICROS, padding: 1024 * MICROS, ..with_source("x") },
        None,
    );
    assert!(edge.is_ok());
}

#[test]
fn light_is_opt_in_and_does_not_recompile_the_shader() {
    let parse = |light: Option<DecorationLight>| {
        DecorationShader::resolve(DecorationShaderPart { light, ..with_source("x") }, None).unwrap()
    };
    let plain = parse(None);
    assert!(plain.light.is_none());
    let defaults = parse(Some(default_light()));
    let light = defaults.light.unwrap();
    assert!(light.enable);
    assert_eq!((light.spread, light.intensity, light.threshold), (80 * MICROS, MICROS, MICROS / 2));
    let tuned = parse(Some(DecorationLight {
        enable: false,
        spread: 120 * MICROS,
        intensity: 750_000,
        threshold: 250_000,
    }));
    assert!(!tuned.light.unwrap().enable);
    assert_eq!(tuned.light.unwrap().spread, 120 * MICROS);
    assert_ne!(defaults, tuned, "lighting edits must trigger config reload");
    assert_eq!(defaults.key(), tuned.key());
    assert_eq!(plain.key(), tuned.key());
}

#[test]
fn shader_rules_replace_and_disable() {
    // layout { focus-ring { shader { source "global"; padding 12; light; }; }; }
    let global = DecorationShader::resolve(
        DecorationShaderPart { padding: 12 * MICROS, light: Some(default_light()), ..with_source("global") },
        None,
    )
    .unwrap();
    let original_key = global.key();
    assert!(original_key.is_some());
    assert!(global.light.is_some());
    // A window rule's shader block replaces the whole block, lighting included.
    let per_window = DecorationShader::resolve(
        DecorationShaderPart { animated: false, ..with_source("per-window") },
        None,
    )
    .unwrap();
    assert_ne!(per_window.key(), original_key);
    assert_eq!(per_window.source(), Some("per-window"));
    assert_eq!(per_window.padding, 0, "a shader block replaces all settings");
    assert!(!per_window.animated);
    assert!(per_window.light.is_none(), "a shader block also replaces lighting");
    // The same source gives the same key.
    let again = DecorationShader::resolve(with_source("global"), None).unwrap();
    assert_eq!(again.key(), original_key);
    // `enable false` gives no program.
    let disabled = DecorationShader::resolve(DecorationShaderPart { enable: false, ..part() }, None).unwrap();
    assert_eq!(disabled.key(), None);
}
