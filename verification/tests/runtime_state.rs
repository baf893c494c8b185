use niri::compositor::{
    decide_shader_frame, RedrawState, shader_throttle_step, ShaderFrameDecision, ThrottleAction, ThrottleStep,
};
use niri::output_shader::OutputShaderState;

const MS: u64 = 1_000_000;

/// A clock reading far enough from zero that readings before it stay representable.
const NOW: u64 = 1_000_000 * MS;

fn names(v: &[&str]) -> Vec<String> {
    v.iter().map(|s| String::from(*s)).collect()
}

#[test]
fn first_frame_is_due() {
    let now = NOW;
    assert_eq!(decide_shader_frame(None, now, 33 * MS), ShaderFrameDecision::Due);
}

#[test]
fn within_interval_waits_for_remaining() {
    let now = NOW;
    let interval = 33 * MS;
    let last = now - 10 * MS;
    match decide_shader_frame(Some(last), now, interval) {
        ShaderFrameDecision::Wait(remaining) => {
            assert!(remaining <= 23 * MS);
            assert!(remaining >= 22 * MS);
        }
        ShaderFrameDecision::Due => panic!("should not be due yet"),
    }
}

#[test]
fn at_or_past_interval_is_due() {
    let now = NOW;
    let interval = 33 * MS;
    assert_eq!(
        decide_shader_frame(Some(now - interval), now, interval),
        ShaderFrameDecision::Due
    );
    assert_eq!(
        decide_shader_frame(Some(now - 100 * MS), now, interval),
        ShaderFrameDecision::Due
    );
}

#[test]
fn clock_going_backwards_does_not_panic() {
    let now = NOW;
    let last = now + 50 * MS;
    match decide_shader_frame(Some(last), now, 33 * MS) {
        ShaderFrameDecision::Wait(remaining) => {
            assert_eq!(remaining, 33 * MS);
        }
        ShaderFrameDecision::Due => panic!("elapsed clamped to 0, so not due"),
    }
}

#[test]
fn toggle_flips_disabled_and_keeps_preset() {
    let mut s = OutputShaderState {
        preset: Some(String::from("night")),
        disabled: false,
    };
    s.toggle();
    assert!(s.disabled);
    assert_eq!(s.preset.as_deref(), Some("night"));
    s.toggle();
    assert!(!s.disabled);
    assert_eq!(s.preset.as_deref(), Some("night"));
}

#[test]
fn cycle_walks_default_then_presets_then_back() {
    let presets = names(&["night", "mono"]);
    let mut s = OutputShaderState::default();

    s.cycle(&presets);
    assert_eq!(s.preset.as_deref(), Some("night"));
    s.cycle(&presets);
    assert_eq!(s.preset.as_deref(), Some("mono"));
    s.cycle(&presets);
    assert_eq!(s.preset, None, "cycle must return to the configured rule");
    s.cycle(&presets);
    assert_eq!(s.preset.as_deref(), Some("night"));
}

#[test]
fn cycle_reenables_a_disabled_shader() {
    let mut s = OutputShaderState {
        preset: None,
        disabled: true,
    };
    s.cycle(&names(&["night"]));
    assert!(!s.disabled);
    assert_eq!(s.preset.as_deref(), Some("night"));
}

#[test]
fn cycle_restarts_when_the_selected_preset_vanished() {
    let mut s = OutputShaderState {
        preset: Some(String::from("night")),
        disabled: false,
    };
    s.cycle(&names(&["mono", "warm"]));
    assert_eq!(s.preset.as_deref(), Some("mono"));
}

#[test]
fn cycle_with_no_presets_configured_is_a_no_op_on_selection() {
    let mut s = OutputShaderState::default();
    s.cycle(&[]);
    assert_eq!(s.preset, None);
    assert!(!s.disabled);
}

#[test]
fn clear_stale_preset_keeps_a_preset_that_still_exists() {
    let mut s = OutputShaderState {
        preset: Some(String::from("night")),
        disabled: false,
    };
    let cleared = s.clear_stale_preset(&names(&["night", "mono"]));
    assert!(!cleared);
    assert_eq!(s.preset.as_deref(), Some("night"));
}

#[test]
fn clear_stale_preset_clears_and_reports_a_vanished_preset() {
    let mut s = OutputShaderState {
        preset: Some(String::from("night")),
        disabled: false,
    };
    let cleared = s.clear_stale_preset(&names(&["mono"]));
    assert!(cleared);
    assert_eq!(s.preset, None);
}

#[test]
fn clear_stale_preset_leaves_none_untouched() {
    let mut s = OutputShaderState::default();
    let cleared = s.clear_stale_preset(&names(&["mono"]));
    assert!(!cleared);
    assert_eq!(s.preset, None);
}

#[test]
fn clear_stale_preset_does_not_touch_disabled() {
    let mut s = OutputShaderState {
        preset: Some(String::from("night")),
        disabled: true,
    };
    let cleared = s.clear_stale_preset(&[]);
    assert!(cleared);
    assert!(s.disabled, "clearing a stale preset must not flip disabled");
}

#[test]
fn uncapped_shaders_keep_the_vblank_loop_running() {
    let step = shader_throttle_step(0, true, false, Some(NOW - MS), NOW, 33 * MS, true);
    assert_eq!(
        step,
        ThrottleStep {
            action: ThrottleAction::Cancel,
            unfinished_animations_remain: true,
            last_shader_frame: Some(NOW - MS),
        }
    );
}

#[test]
fn capped_idle_shader_arms_one_interval() {
    let step = shader_throttle_step(30, true, false, None, NOW, 33 * MS, false);
    assert_eq!(step.action, ThrottleAction::Arm(33 * MS));
    assert_eq!(step.last_shader_frame, Some(NOW));
    assert!(!step.unfinished_animations_remain);
}

#[test]
fn capped_redraw_between_frames_waits_or_keeps_timer() {
    let last = Some(NOW - 10 * MS);
    let unarmed = shader_throttle_step(30, true, false, last, NOW, 33 * MS, false);
    assert_eq!(unarmed.action, ThrottleAction::Arm(23 * MS));
    assert_eq!(unarmed.last_shader_frame, last);
    let armed = shader_throttle_step(30, true, false, last, NOW, 33 * MS, true);
    assert_eq!(armed.action, ThrottleAction::Keep);
    assert_eq!(armed.last_shader_frame, last);
}

#[test]
fn shaders_riding_another_animation_only_refresh_the_clock() {
    let step = shader_throttle_step(30, true, true, Some(NOW - 5 * MS), NOW, 33 * MS, true);
    assert_eq!(step.action, ThrottleAction::Cancel);
    assert_eq!(step.last_shader_frame, Some(NOW));
    assert!(step.unfinished_animations_remain);
}

#[test]
fn no_animated_shader_cancels_the_timer() {
    let step = shader_throttle_step(30, false, false, Some(NOW - 5 * MS), NOW, 33 * MS, true);
    assert_eq!(step.action, ThrottleAction::Cancel);
    assert_eq!(step.last_shader_frame, Some(NOW - 5 * MS));
    assert!(!step.unfinished_animations_remain);
}

#[test]
fn frame_after_a_shader_frame_inside_the_interval_waits() {
    let first = shader_throttle_step(30, true, false, None, NOW, 33 * MS, false);
    let second = shader_throttle_step(
        30,
        true,
        false,
        first.last_shader_frame,
        NOW + 20 * MS,
        33 * MS,
        true,
    );
    assert_eq!(second.action, ThrottleAction::Keep);
    assert_eq!(second.last_shader_frame, Some(NOW));
    let due = decide_shader_frame(first.last_shader_frame, NOW + 33 * MS, 33 * MS);
    assert_eq!(due, ShaderFrameDecision::Due);
}

#[test]
fn queue_redraw_queues_or_waits_for_vblank() {
    type S = RedrawState<u32>;
    assert_eq!(S::Idle.queue_redraw(), S::Queued);
    assert_eq!(S::Queued.queue_redraw(), S::Queued);
    assert_eq!(
        S::WaitingForVBlank { redraw_needed: false }.queue_redraw(),
        S::WaitingForVBlank { redraw_needed: true }
    );
    assert_eq!(
        S::WaitingForEstimatedVBlank(7).queue_redraw(),
        S::WaitingForEstimatedVBlankAndQueued(7)
    );
    assert_eq!(
        S::WaitingForEstimatedVBlankAndQueued(7).queue_redraw(),
        S::WaitingForEstimatedVBlankAndQueued(7)
    );
    assert_eq!(S::default(), S::Idle);
}

#[test]
fn queued_states_are_the_ones_redrawn() {
    type S = RedrawState<u32>;
    assert!(S::Queued.is_queued());
    assert!(S::WaitingForEstimatedVBlankAndQueued(1).is_queued());
    assert!(!S::Idle.is_queued());
    assert!(!S::WaitingForVBlank { redraw_needed: true }.is_queued());
    assert!(!S::WaitingForEstimatedVBlank(1).is_queued());
}

#[test]
fn a_skipped_render_keeps_only_the_estimated_vblank_timer() {
    type S = RedrawState<u32>;
    assert_eq!(S::Queued.after_skipped_render(), S::Idle);
    assert_eq!(
        S::WaitingForEstimatedVBlankAndQueued(3).after_skipped_render(),
        S::WaitingForEstimatedVBlank(3)
    );
    assert_eq!(
        S::WaitingForEstimatedVBlank(3).after_skipped_render(),
        S::WaitingForEstimatedVBlank(3)
    );
    assert_eq!(S::WaitingForVBlank { redraw_needed: true }.after_skipped_render(), S::Idle);
    let twice = S::Idle.queue_redraw().queue_redraw();
    assert_eq!(twice, S::Idle.queue_redraw());
}
