use niri::decoration_shader::{DecorationLight, DecorationShader, DecorationShaderPart, MICROS};
use niri::focus_ring::{focus_ring_decision, FocusRingDecision, FocusRingState, RingColor};

fn shader(animated: bool, draw_inside: bool, light: Option<DecorationLight>) -> DecorationShader {
    DecorationShader::resolve(
        DecorationShaderPart {
            source: Some(String::from("vec4 ring_color(vec2 p) { return vec4(1.); }")),
            path: None,
            enable: true,
            animated,
            speed: MICROS,
            padding: 0,
            draw_inside,
            light,
        },
        None,
    )
    .unwrap()
}

/// A ring with the default rainbow ripple and no shader block, as `update_render_elements`
/// decides it.
fn ripple(active: bool, urgent: bool, alpha_positive: bool, visible: bool, width: bool, off: bool) -> FocusRingDecision {
    focus_ring_decision(active, urgent, off, width, alpha_positive, false, Some((true, true)), None, visible, true, false, true)
}

#[test]
fn rainbow_ripple_state_and_damage() {
    let mut ring = FocusRingState::new();
    let d = ripple(true, false, true, true, true, false);
    ring.apply(&d);
    assert!(ring.is_animating());
    assert!(d.hollow, "animated rings must stay hollow behind translucent windows");
    for (active, urgent, alpha) in [(false, false, true), (true, true, true), (true, false, false)] {
        ring.apply(&ripple(active, urgent, alpha, true, true, false));
        assert!(!ring.is_animating());
    }
    ring.apply(&ripple(true, false, true, false, true, false));
    assert!(!ring.is_animating(), "a transparent ring needs no redraws");
    ring.apply(&ripple(true, false, true, true, false, false));
    assert!(!ring.is_animating());
    ring.apply(&ripple(true, false, true, true, true, true));
    assert!(!ring.is_animating());
}

#[test]
fn a_shader_block_overrides_the_ripple() {
    let s = shader(true, false, None);
    let d = focus_ring_decision(true, false, false, true, true, false, Some((true, true)), Some(&s), true, false, false, true);
    assert!(!d.ripple);
    assert_eq!(d.custom_key, s.key());
    assert!(d.animating);
    assert!(d.hollow);
    assert!(d.use_border_shader);
    assert!(!d.thicken_inner_corners);
    assert_eq!(d.color, RingColor::Active);

    // A disabled shader block still switches the ripple off, and uses no program.
    let off = DecorationShader::resolve(
        DecorationShaderPart {
            source: None,
            path: None,
            enable: false,
            animated: true,
            speed: MICROS,
            padding: 0,
            draw_inside: false,
            light: None,
        },
        None,
    )
    .unwrap();
    let d = focus_ring_decision(true, false, false, true, true, false, Some((true, true)), Some(&off), true, false, false, true);
    assert!(!d.ripple && !d.animating && d.custom_key.is_none() && !d.hollow);
}

#[test]
fn static_shaders_do_not_animate_and_draw_inside_is_a_full_quad() {
    let s = shader(false, true, None);
    let d = focus_ring_decision(true, false, false, true, true, true, None, Some(&s), true, false, false, true);
    assert!(!d.animating);
    assert!(!d.hollow);
    assert!(d.custom_key.is_some());
}

#[test]
fn light_is_on_only_with_an_enabled_intense_light() {
    let lit = DecorationLight { enable: true, spread: 80 * MICROS, intensity: MICROS, threshold: MICROS / 2 };
    let s = shader(true, false, Some(lit));
    let d = focus_ring_decision(true, false, false, true, true, false, None, Some(&s), true, false, false, true);
    assert!(d.light);
    let dark = shader(true, false, Some(DecorationLight { intensity: 0, ..lit }));
    let d = focus_ring_decision(true, false, false, true, true, false, None, Some(&dark), true, false, false, true);
    assert!(!d.light);
    let d = focus_ring_decision(false, false, false, true, true, false, None, Some(&s), true, false, false, true);
    assert!(!d.light && !d.enabled && d.color == RingColor::Inactive);
}

#[test]
fn a_missing_program_stops_redraws_until_the_key_changes() {
    let s = shader(true, false, None);
    let d = focus_ring_decision(true, false, false, true, true, false, None, Some(&s), true, false, false, true);
    let mut ring = FocusRingState::new();
    ring.apply(&d);
    assert!(ring.is_animating());
    ring.set_available(false);
    assert!(!ring.is_animating());
    ring.apply(&d);
    assert!(!ring.is_animating(), "the same program stays unavailable");
    let other = shader(true, false, None);
    let other = DecorationShader::resolve(
        DecorationShaderPart {
            source: Some(String::from("vec4 ring_color(vec2 p) { return vec4(0.); }")),
            path: None,
            enable: true,
            animated: other.animated,
            speed: MICROS,
            padding: 0,
            draw_inside: false,
            light: None,
        },
        None,
    )
    .unwrap();
    ring.apply(&focus_ring_decision(true, false, false, true, true, false, None, Some(&other), true, false, false, true));
    assert!(ring.is_animating());
}
