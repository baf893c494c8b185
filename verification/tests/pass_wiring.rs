use niri::keyboard_focus::{focus_stamp, FocusStamp};
use niri::pass_wiring::{
    buffer_subpass_bindings, chain_ready, display_pass_bindings, next_pass_input, PassBindings,
    PassFacts, PassTexture,
};

const BARE: PassFacts = PassFacts { has_prev: false, has_buffer_program: false, has_buffer_prev: false };

#[test]
fn chain_runs_only_with_every_display_program() {
    assert!(!chain_ready(&[]));
    assert!(chain_ready(&[true]));
    assert!(chain_ready(&[true, true, true]));
    assert!(!chain_ready(&[true, false, true]));
}

#[test]
fn first_frame_first_pass_reads_the_screen_everywhere() {
    assert_eq!(buffer_subpass_bindings(0, PassTexture::Source, BARE, false), None);
    assert_eq!(
        display_pass_bindings(0, PassTexture::Source, BARE, false, false),
        PassBindings {
            screen: PassTexture::Source,
            source: PassTexture::Source,
            prev: PassTexture::Source,
            screen_prev: PassTexture::Source,
            buffer: PassTexture::Source,
        }
    );
}

#[test]
fn a_later_pass_with_history_and_a_buffer_program() {
    let f = PassFacts { has_prev: true, has_buffer_program: true, has_buffer_prev: true };
    let input = next_pass_input(0, PassTexture::Source, true);
    assert_eq!(input, PassTexture::PassOut(0));
    let sub = buffer_subpass_bindings(1, input, f, true).unwrap();
    assert_eq!(
        sub,
        PassBindings {
            screen: PassTexture::PassOut(0),
            source: PassTexture::Source,
            prev: PassTexture::PassPrev(1),
            screen_prev: PassTexture::ScreenPrev,
            buffer: PassTexture::BufferPrev(1),
        }
    );
    let shown = display_pass_bindings(1, input, f, true, true);
    assert_eq!(shown.buffer, PassTexture::BufferOut(1));
    assert_eq!(shown.prev, PassTexture::PassPrev(1));
    assert_eq!(shown.screen, PassTexture::PassOut(0));
    // A buffer sub-pass that failed leaves niri_buffer on the pass's own previous output.
    assert_eq!(display_pass_bindings(1, input, f, true, false).buffer, PassTexture::PassPrev(1));
}

#[test]
fn a_first_buffer_falls_back_to_the_previous_screen() {
    let f = PassFacts { has_prev: false, has_buffer_program: true, has_buffer_prev: false };
    assert_eq!(
        buffer_subpass_bindings(2, PassTexture::PassOut(1), f, true).unwrap().buffer,
        PassTexture::ScreenPrev
    );
    assert_eq!(
        buffer_subpass_bindings(2, PassTexture::PassOut(1), f, false).unwrap().buffer,
        PassTexture::Source
    );
    assert_eq!(
        buffer_subpass_bindings(2, PassTexture::PassOut(1), f, false).unwrap().prev,
        PassTexture::PassOut(1)
    );
}

#[test]
fn a_failed_pass_hands_its_input_on() {
    let mut input = PassTexture::Source;
    for (i, rendered) in [true, false, false].into_iter().enumerate() {
        input = next_pass_input(i, input, rendered);
    }
    assert_eq!(input, PassTexture::PassOut(0));
    assert_eq!(next_pass_input(3, input, true), PassTexture::PassOut(3));
}

#[test]
fn focus_stamp_waits_only_for_stamped_windows_with_a_debounce() {
    assert_eq!(focus_stamp(false, 750), FocusStamp::Now);
    assert_eq!(focus_stamp(true, 0), FocusStamp::Now);
    assert_eq!(focus_stamp(true, 750), FocusStamp::AfterDebounce(750));
}
