//! Decisions the compositor core makes about shaders and pointer state: which shader chains a
//! config compiles, the global chain it runs, and when a throttled shader frame is due.

use vstd::prelude::*;

use crate::global_shader::{
    animating_spec, chain_caps, continuous_spec, opt_view, parse_redraw_spec, GlobalShader,
    GlobalShaderCaps, PassView, RedrawMode,
};
use crate::text::str_eq;
use crate::program_cache::has_key;
use crate::shaders::{scoped_key, scoped_key_writes};
use std::collections::hash_map::DefaultHasher;
use vstd::std_specs::hash::DefaultHasherAdditionalSpecFns;
use crate::region_shader::{
    pairs_view, resolve_scoped_chain, resolve_scoped_leaf, scoped_chain, single_chain, pair_view,
    RegionShader,
};
use crate::window_shaders::{preset_mode, WindowShaderPreset};
use crate::global_shader::{resolve_pass_spec, GlobalShaderPassPart};

verus! {

#[derive(Debug, Clone, Copy, PartialEq, Eq, Hash, Structural)]
pub enum PointerVisibility {
    /// The pointer is visible.
    Visible,
    /// The pointer is invisible, but retains its focus.
    ///
    /// This state is set temporarily after auto-hiding the pointer to keep tooltips open and
    /// grabs ongoing.
    Hidden,
    /// The pointer is invisible and cannot focus.
    ///
    /// Corresponds to a fully disabled pointer, for example after a touchscreen input, or after
    /// the pointer contents changed in a Hidden state.
    Disabled,
}

impl PointerVisibility {
    pub fn is_visible(&self) -> (r: bool)
        ensures
            r == (*self is Visible),
    {
        match self {
            PointerVisibility::Visible => true,
            _ => false,
        }
    }
}

#[derive(Debug, PartialEq, Eq, Structural)]
pub enum LockRenderState {
    /// The output displays a normal session frame.
    Unlocked,
    /// The output displays a locked frame.
    Locked,
}

pub enum CenterCoords {
    Separately,
    Both,
    /// Force centering even if the cursor is already in the rectangle.
    BothAlways,
}

/// Where an output is in its redraw cycle. `T` is the token of the timer armed at an estimated
/// VBlank.
#[derive(Debug, Clone, Copy, PartialEq, Eq)]
pub enum RedrawState<T> {
    /// The compositor is idle.
    Idle,
    /// A redraw is queued.
    Queued,
    /// We submitted a frame to the KMS and waiting for it to be presented.
    WaitingForVBlank { redraw_needed: bool },
    /// We did not submit anything to KMS and made a timer to fire at the estimated VBlank.
    WaitingForEstimatedVBlank(T),
    /// A redraw is queued on top of the above.
    WaitingForEstimatedVBlankAndQueued(T),
}

/// The state after a redraw is requested.
pub open spec fn queue_spec<T>(s: RedrawState<T>) -> RedrawState<T> {
    match s {
        RedrawState::Idle => RedrawState::Queued,
        RedrawState::WaitingForEstimatedVBlank(t) => RedrawState::WaitingForEstimatedVBlankAndQueued(t),
        RedrawState::WaitingForVBlank { .. } => RedrawState::WaitingForVBlank { redraw_needed: true },
        other => other,
    }
}

/// Whether the output is due for a redraw in this cycle.
pub open spec fn queued_spec<T>(s: RedrawState<T>) -> bool {
    s is Queued || s is WaitingForEstimatedVBlankAndQueued
}

/// The state after a redraw rendered nothing: an armed estimated-VBlank timer stays armed,
/// anything else goes idle.
pub open spec fn skipped_spec<T>(s: RedrawState<T>) -> RedrawState<T> {
    match s {
        RedrawState::WaitingForEstimatedVBlank(t) => RedrawState::WaitingForEstimatedVBlank(t),
        RedrawState::WaitingForEstimatedVBlankAndQueued(t) => RedrawState::WaitingForEstimatedVBlank(t),
        _ => RedrawState::Idle,
    }
}

impl<T> Default for RedrawState<T> {
    fn default() -> (s: Self)
        ensures
            s is Idle,
    {
        RedrawState::Idle
    }
}

impl<T> RedrawState<T> {
    /// Requests a redraw: queues one, or, while a frame is on screen, asks for one after its
    /// VBlank.
    pub fn queue_redraw(self) -> (r: Self)
        ensures
            r == queue_spec(self),
    {
        match self {
            RedrawState::Idle => RedrawState::Queued,
            RedrawState::WaitingForEstimatedVBlank(token) => {
                RedrawState::WaitingForEstimatedVBlankAndQueued(token)
            },
            RedrawState::WaitingForVBlank { .. } => RedrawState::WaitingForVBlank {
                redraw_needed: true,
            },
            value => value,
        }
    }

    /// Whether this output is due for a redraw in the current cycle.
    pub fn is_queued(&self) -> (b: bool)
        ensures
            b == queued_spec(*self),
    {
        match self {
            RedrawState::Queued => true,
            RedrawState::WaitingForEstimatedVBlankAndQueued(_) => true,
            _ => false,
        }
    }

    /// The state after a redraw that rendered nothing.
    pub fn after_skipped_render(self) -> (r: Self)
        ensures
            r == skipped_spec(self),
    {
        match self {
            RedrawState::WaitingForEstimatedVBlank(token) => RedrawState::WaitingForEstimatedVBlank(
                token,
            ),
            RedrawState::WaitingForEstimatedVBlankAndQueued(token) => {
                RedrawState::WaitingForEstimatedVBlank(token)
            },
            _ => RedrawState::Idle,
        }
    }
}

/// Requesting a redraw twice is requesting it once; a request never drops an armed timer's
/// token; and from any state but a pending VBlank it leaves the output queued.
pub proof fn lemma_queue_redraw_idempotent<T>(s: RedrawState<T>)
    ensures
        queue_spec(queue_spec(s)) == queue_spec(s),
        !(s is WaitingForVBlank) ==> queued_spec(queue_spec(s)),
        s matches RedrawState::WaitingForEstimatedVBlank(t) ==> queue_spec(s)
            == RedrawState::WaitingForEstimatedVBlankAndQueued(t),
{
}

/// A redraw that rendered nothing leaves the output unqueued, so the redraw loop moves on, and
/// keeps any armed estimated-VBlank timer.
pub proof fn lemma_skipped_render_unqueues<T>(s: RedrawState<T>)
    ensures
        !queued_spec(skipped_spec(s)),
        s matches RedrawState::WaitingForEstimatedVBlankAndQueued(t) ==> skipped_spec(s)
            == RedrawState::WaitingForEstimatedVBlank(t),
{
}

/// A resolved chain animates: some pass reads the time or a feedback buffer.
pub open spec fn chain_animates(chain: Seq<(String, bool)>) -> bool {
    animating_spec(chain_caps(chain))
}

/// A region shader pinned to `output` (or to none) is drawn on the output named `name`.
pub open spec fn region_on_output(output: Option<String>, name: Seq<char>) -> bool {
    match output {
        Some(want) => want@ == name,
        None => true,
    }
}

/// Whether shaders force continuous redraws of the output named `name`: the global shader when
/// it is enabled and its redraw mode wants it for its chain, any region shader drawn on this
/// output whose chain animates, or any window whose shader chain animates and that is visible
/// (every window of the output counts while the overview is open).
pub open spec fn shader_animate_spec(
    global: GlobalShader,
    global_chain: Seq<(String, bool)>,
    name: Seq<char>,
    regions: Seq<(Option<String>, Vec<(String, bool)>)>,
    windows: Seq<(bool, Vec<(String, bool)>)>,
    overview_open: bool,
) -> bool {
    ||| global.enable && continuous_spec(parse_redraw_spec(global.redraw@), chain_caps(global_chain))
    ||| exists|i: int|
        0 <= i < regions.len() && region_on_output(regions[i].0, name) && #[trigger] chain_animates(
            regions[i].1@,
        )
    ||| exists|j: int|
        0 <= j < windows.len() && (overview_open || windows[j].0) && #[trigger] chain_animates(
            windows[j].1@,
        )
}

/// Decides whether shaders force continuous redraws of an output. `global_chain` is the global
/// shader's resolved chain, `regions` each region shader's pinned output and resolved chain, and
/// `windows` each window of the output with whether it is visible and its shader chain. Static
/// shaders never force redraws, and a window's shader only does while the window is visible.
pub fn shader_animate(
    global: &GlobalShader,
    global_chain: &[(String, bool)],
    output_name: &str,
    regions: &[(Option<String>, Vec<(String, bool)>)],
    windows: &[(bool, Vec<(String, bool)>)],
    overview_open: bool,
) -> (b: bool)
    ensures
        b == shader_animate_spec(*global, global_chain@, output_name@, regions@, windows@, overview_open),
{
    if global.enable {
        let mode = RedrawMode::parse(global.redraw.as_str());
        if mode.wants_continuous_redraw(GlobalShaderCaps::scan_chain(global_chain)) {
            return true;
        }
    }
    let mut i: usize = 0;
    while i < regions.len()
        invariant
            i <= regions@.len(),
            forall|k: int|
                0 <= k < i ==> !(region_on_output(regions@[k].0, output_name@)
                    && #[trigger] chain_animates(regions@[k].1@)),
        decreases regions@.len() - i,
    {
        let applies = match &regions[i].0 {
            Some(want) => str_eq(want.as_str(), output_name),
            None => true,
        };
        if applies && GlobalShaderCaps::scan_chain(regions[i].1.as_slice()).is_animating() {
            assert(chain_animates(regions@[i as int].1@));
            return true;
        }
        i = i + 1;
    }
    let mut j: usize = 0;
    while j < windows.len()
        invariant
            j <= windows@.len(),
            forall|k: int|
                0 <= k < j ==> !((overview_open || windows@[k].0) && #[trigger] chain_animates(
                    windows@[k].1@,
                )),
        decreases windows@.len() - j,
    {
        if (overview_open || windows[j].0) && GlobalShaderCaps::scan_chain(
            windows[j].1.as_slice(),
        ).is_animating() {
            assert(chain_animates(windows@[j as int].1@));
            return true;
        }
        j = j + 1;
    }
    false
}

/// A window that is not visible never makes the output redraw for its shader outside the
/// overview: hiding it cannot turn a static output into an animating one.
pub proof fn lemma_hidden_windows_do_not_animate(
    global: GlobalShader,
    global_chain: Seq<(String, bool)>,
    name: Seq<char>,
    regions: Seq<(Option<String>, Vec<(String, bool)>)>,
    windows: Seq<(bool, Vec<(String, bool)>)>,
)
    requires
        forall|j: int| 0 <= j < windows.len() ==> !(#[trigger] windows[j]).0,
    ensures
        shader_animate_spec(global, global_chain, name, regions, windows, false)
            == shader_animate_spec(global, global_chain, name, regions, Seq::empty(), false),
{
}

/// Whether a render target shows shaders: the output itself always does; a screencast or screen
/// capture only when `shaders-in-capture` is on, so shaders stay a local display effect.
pub open spec fn target_renders_shaders_spec(is_output_target: bool, shaders_in_capture: bool) -> bool {
    is_output_target || shaders_in_capture
}

/// How one render of an output draws the global shader.
#[derive(Debug, Clone, Copy, PartialEq, Eq, Structural)]
pub struct GlobalShaderRenderPlan {
    /// The shader element is drawn at all.
    pub push: bool,
    /// It goes above the pointer (so the cursor is part of the screen it reads), else below.
    pub above_pointer: bool,
    /// It writes the output's own feedback (previous-frame and buffer) sinks; a capture render
    /// writes throwaway ones, so the live output's feedback is never disturbed.
    pub live_feedback: bool,
    /// Only a box around the cursor is reshaded, rather than the whole output.
    pub region_mode: bool,
}

/// The plan for one render of the global shader. `program_loaded` says whether the chain's first
/// pass compiled; `caps` are the chain's capabilities and `n_passes` its length. Region mode is
/// for a single-pass (or empty) chain that reads the cursor, does not animate, and has a cursor
/// radius above zero.
pub open spec fn global_render_plan_spec(
    is_output_target: bool,
    shaders_in_capture: bool,
    program_loaded: bool,
    enable: bool,
    reads_cursor: bool,
    cursor_radius: Option<u32>,
    caps: GlobalShaderCaps,
    n_passes: usize,
) -> GlobalShaderRenderPlan {
    GlobalShaderRenderPlan {
        push: program_loaded && target_renders_shaders_spec(is_output_target, shaders_in_capture),
        above_pointer: enable && reads_cursor,
        live_feedback: is_output_target,
        region_mode: match cursor_radius {
            Some(r) => r > 0 && caps.uses_cursor && !animating_spec(caps) && n_passes <= 1,
            None => false,
        },
    }
}

/// Decides how one render of an output draws the global shader.
pub fn global_shader_render_plan(
    is_output_target: bool,
    shaders_in_capture: bool,
    program_loaded: bool,
    enable: bool,
    reads_cursor: bool,
    cursor_radius: Option<u32>,
    caps: GlobalShaderCaps,
    n_passes: usize,
) -> (p: GlobalShaderRenderPlan)
    ensures
        p == global_render_plan_spec(
            is_output_target,
            shaders_in_capture,
            program_loaded,
            enable,
            reads_cursor,
            cursor_radius,
            caps,
            n_passes,
        ),
{
    GlobalShaderRenderPlan {
        push: program_loaded && (is_output_target || shaders_in_capture),
        above_pointer: enable && reads_cursor,
        live_feedback: is_output_target,
        region_mode: match cursor_radius {
            Some(r) => r > 0 && caps.uses_cursor && !caps.is_animating() && n_passes <= 1,
            None => false,
        },
    }
}

/// By default shaders never reach a capture, and a capture never writes the live output's
/// feedback; an animating shader always reshades the whole output.
pub proof fn lemma_capture_isolation(
    shaders_in_capture: bool,
    program_loaded: bool,
    enable: bool,
    reads_cursor: bool,
    cursor_radius: Option<u32>,
    caps: GlobalShaderCaps,
    n_passes: usize,
)
    ensures
        !global_render_plan_spec(false, false, program_loaded, enable, reads_cursor, cursor_radius, caps, n_passes).push,
        !global_render_plan_spec(false, shaders_in_capture, program_loaded, enable, reads_cursor, cursor_radius, caps, n_passes).live_feedback,
        animating_spec(caps) ==> !global_render_plan_spec(
            true,
            shaders_in_capture,
            program_loaded,
            enable,
            reads_cursor,
            cursor_radius,
            caps,
            n_passes,
        ).region_mode,
{
}

/// The region shaders one render of the output named `name` draws, as `(region index, program
/// key)` in config order: none on a target that shows no shaders; otherwise each region drawn on
/// this output whose chain is non-empty and whose compiled program (by its chain's key) is loaded.
pub open spec fn regions_to_draw_spec(
    renders: bool,
    name: Seq<char>,
    regions: Seq<(Option<String>, Vec<(String, bool)>)>,
    loaded: Seq<u64>,
    n: int,
) -> Seq<(usize, u64)>
    decreases n,
{
    if n <= 0 || !renders {
        Seq::empty()
    } else {
        let prev = regions_to_draw_spec(renders, name, regions, loaded, n - 1);
        let r = regions[n - 1];
        let key = DefaultHasher::spec_finish(scoped_key_writes(r.1@));
        if region_on_output(r.0, name) && r.1@.len() > 0 && loaded.contains(key) {
            prev.push(((n - 1) as usize, key))
        } else {
            prev
        }
    }
}

/// Decides which region shaders one render draws. `loaded` are the keys of the compiled scoped
/// programs.
pub fn regions_to_draw(
    is_output_target: bool,
    shaders_in_capture: bool,
    output_name: &str,
    regions: &[(Option<String>, Vec<(String, bool)>)],
    loaded: &[u64],
) -> (r: Vec<(usize, u64)>)
    ensures
        r@ == regions_to_draw_spec(
            target_renders_shaders_spec(is_output_target, shaders_in_capture),
            output_name@,
            regions@,
            loaded@,
            regions@.len() as int,
        ),
{
    let renders = is_output_target || shaders_in_capture;
    let mut out: Vec<(usize, u64)> = Vec::new();
    if !renders {
        return out;
    }
    let mut i: usize = 0;
    while i < regions.len()
        invariant
            renders,
            i <= regions@.len(),
            out@ == regions_to_draw_spec(renders, output_name@, regions@, loaded@, i as int),
        decreases regions@.len() - i,
    {
        let applies = match &regions[i].0 {
            Some(want) => str_eq(want.as_str(), output_name),
            None => true,
        };
        if applies && regions[i].1.len() > 0 {
            let key = scoped_key(regions[i].1.as_slice());
            if has_key(loaded, key) {
                out.push((i, key));
            }
        }
        i = i + 1;
    }
    out
}

/// Decision for one frame of the `shader-animation-max-fps` throttle.
#[derive(Debug, Clone, Copy, PartialEq, Eq, Structural)]
pub enum ShaderFrameDecision {
    /// This is the first shader frame, or a full interval has elapsed: render it as a shader
    /// frame and schedule the next wake one interval out.
    Due,
    /// Not yet due; the next shader frame is this many nanoseconds away.
    Wait(u64),
}

/// Time elapsed from `last` to `now`, or zero if the clock reads earlier than `last`.
pub open spec fn elapsed_spec(last: u64, now: u64) -> int {
    if now >= last {
        now - last
    } else {
        0
    }
}

/// The throttle decision for a frame at `now`, given the last shader frame and the interval.
pub open spec fn decide_spec(last: Option<u64>, now: u64, interval: u64) -> ShaderFrameDecision {
    match last {
        None => ShaderFrameDecision::Due,
        Some(l) => if elapsed_spec(l, now) >= interval {
            ShaderFrameDecision::Due
        } else {
            ShaderFrameDecision::Wait((interval - elapsed_spec(l, now)) as u64)
        },
    }
}

/// Given when the last shader frame rendered, the current time and the capped frame interval (all
/// in nanoseconds of a monotonic clock), decide whether this frame is due.
pub fn decide_shader_frame(last: Option<u64>, now: u64, interval: u64) -> (d: ShaderFrameDecision)
    ensures
        d == decide_spec(last, now, interval),
{
    match last {
        None => ShaderFrameDecision::Due,
        Some(last) => {
            let elapsed = if now >= last {
                now - last
            } else {
                0
            };
            if elapsed >= interval {
                ShaderFrameDecision::Due
            } else {
                ShaderFrameDecision::Wait(interval - elapsed)
            }
        },
    }
}

/// What to do with the per-output shader-throttle timer after a redraw decision.
#[derive(Debug, Clone, Copy, PartialEq, Eq, Structural)]
pub enum ThrottleAction {
    /// Leave the currently-armed timer as-is.
    Keep,
    /// Cancel any pending timer.
    Cancel,
    /// Arm (replacing any pending) a one-shot wake this many nanoseconds out.
    Arm(u64),
}

/// The outcome of one redraw's throttle decision: the timer action, and the output's updated
/// "animations remain" flag and last shader frame time.
#[derive(Debug, Clone, Copy, PartialEq, Eq, Structural)]
pub struct ThrottleStep {
    pub action: ThrottleAction,
    pub unfinished_animations_remain: bool,
    pub last_shader_frame: Option<u64>,
}

/// The throttle decision of one redraw. With no cap (`cap_fps == 0`) animated shaders keep the
/// vblank loop running as any animation does. With a cap, shader-only redraws are paced by a
/// one-shot timer at `interval`; shaders that ride along a non-shader animation are never
/// throttled, only keeping the clock current.
pub open spec fn throttle_spec(
    cap_fps: u32,
    shader_animate: bool,
    unfinished: bool,
    last: Option<u64>,
    now: u64,
    interval: u64,
    timer_armed: bool,
) -> ThrottleStep {
    if cap_fps == 0 {
        ThrottleStep {
            action: ThrottleAction::Cancel,
            unfinished_animations_remain: unfinished || shader_animate,
            last_shader_frame: last,
        }
    } else if !shader_animate {
        ThrottleStep {
            action: ThrottleAction::Cancel,
            unfinished_animations_remain: unfinished,
            last_shader_frame: last,
        }
    } else if unfinished {
        ThrottleStep {
            action: ThrottleAction::Cancel,
            unfinished_animations_remain: unfinished,
            last_shader_frame: Some(now),
        }
    } else {
        match decide_spec(last, now, interval) {
            ShaderFrameDecision::Due => ThrottleStep {
                action: ThrottleAction::Arm(interval),
                unfinished_animations_remain: unfinished,
                last_shader_frame: Some(now),
            },
            ShaderFrameDecision::Wait(remaining) => ThrottleStep {
                action: if timer_armed {
                    ThrottleAction::Keep
                } else {
                    ThrottleAction::Arm(remaining)
                },
                unfinished_animations_remain: unfinished,
                last_shader_frame: last,
            },
        }
    }
}

/// Decides, for one redraw of an output, what the `shader-animation-max-fps` throttle does.
/// `interval` is the capped frame interval (one second over `cap_fps`) in nanoseconds, and the
/// times are nanoseconds of a monotonic clock.
pub fn shader_throttle_step(
    cap_fps: u32,
    shader_animate: bool,
    unfinished: bool,
    last: Option<u64>,
    now: u64,
    interval: u64,
    timer_armed: bool,
) -> (step: ThrottleStep)
    ensures
        step == throttle_spec(cap_fps, shader_animate, unfinished, last, now, interval, timer_armed),
{
    if cap_fps == 0 {
        ThrottleStep {
            action: ThrottleAction::Cancel,
            unfinished_animations_remain: unfinished || shader_animate,
            last_shader_frame: last,
        }
    } else if !shader_animate {
        ThrottleStep {
            action: ThrottleAction::Cancel,
            unfinished_animations_remain: unfinished,
            last_shader_frame: last,
        }
    } else if unfinished {
        ThrottleStep {
            action: ThrottleAction::Cancel,
            unfinished_animations_remain: unfinished,
            last_shader_frame: Some(now),
        }
    } else {
        match decide_shader_frame(last, now, interval) {
            ShaderFrameDecision::Due => ThrottleStep {
                action: ThrottleAction::Arm(interval),
                unfinished_animations_remain: unfinished,
                last_shader_frame: Some(now),
            },
            ShaderFrameDecision::Wait(remaining) => ThrottleStep {
                action: if timer_armed {
                    ThrottleAction::Keep
                } else {
                    ThrottleAction::Arm(remaining)
                },
                unfinished_animations_remain: unfinished,
                last_shader_frame: last,
            },
        }
    }
}

/// Under a cap, a shader-only redraw never arms a wake later than one interval out, and a
/// shader frame is rendered at most once per interval: after a frame at `now`, a redraw less than
/// one interval later only waits.
pub proof fn lemma_throttle_paces_shader_frames(
    cap_fps: u32,
    last: Option<u64>,
    now: u64,
    later: u64,
    interval: u64,
    timer_armed: bool,
)
    requires
        cap_fps > 0,
        now <= later,
        later < now + interval,
    ensures
        throttle_spec(cap_fps, true, false, last, now, interval, timer_armed).action matches
            ThrottleAction::Arm(d) ==> d <= interval,
        ({
            let step = throttle_spec(cap_fps, true, false, last, now, interval, timer_armed);
            step.last_shader_frame == Some(now) ==> throttle_spec(
                cap_fps,
                true,
                false,
                step.last_shader_frame,
                later,
                interval,
                timer_armed,
            ).last_shader_frame == Some(now)
        }),
{
}

/// A frame told to wait `r` is not due at any earlier time, and becomes due exactly `r` later;
/// the wait never exceeds the interval.
pub proof fn lemma_wait_then_due(last: u64, now: u64, interval: u64)
    requires
        now >= last,
    ensures
        decide_spec(Some(last), now, interval) matches ShaderFrameDecision::Wait(r) ==> {
            &&& 0 < r <= interval
            &&& forall|t: u64|
                now <= t < now + r ==> #[trigger] decide_spec(Some(last), t, interval) is Wait
            &&& now + r <= u64::MAX ==> decide_spec(Some(last), (now + r) as u64, interval)
                == ShaderFrameDecision::Due
        },
{
}

/// The first shader frame is always due.
pub proof fn lemma_first_frame_due(now: u64, interval: u64)
    ensures
        decide_spec(None, now, interval) == ShaderFrameDecision::Due,
{
}

/// A region's chain may resolve to `out`.
pub open spec fn region_chain<F: Fn(&str) -> Option<String>>(
    r: RegionShader,
    expand: F,
    out: Seq<(Seq<char>, bool)>,
) -> bool {
    &&& r.passes@.len() == 0 ==> single_chain(
        PassView { source: opt_view(r.source), path: opt_view(r.path), mode: r.mode@ },
        expand,
        out,
    )
    &&& r.passes@.len() > 0 ==> scoped_chain(r@.passes, expand, out)
}

/// A window-rule shader's chain may resolve to `out`.
pub open spec fn window_chain<F: Fn(&str) -> Option<String>>(
    w: WindowShaderPreset,
    expand: F,
    out: Seq<(Seq<char>, bool)>,
) -> bool {
    &&& w.passes@.len() == 0 ==> single_chain(
        PassView { source: opt_view(w.source), path: opt_view(w.path), mode: preset_mode(w.mode) },
        expand,
        out,
    )
    &&& w.passes@.len() > 0 ==> scoped_chain(
        w.passes@.map_values(|p: GlobalShaderPassPart| resolve_pass_spec(p, preset_mode(w.mode))),
        expand,
        out,
    )
}

/// The non-empty chains of a list, in order.
pub open spec fn nonempty_chains(cs: Seq<Seq<(Seq<char>, bool)>>) -> Seq<Seq<(Seq<char>, bool)>>
    decreases cs.len(),
{
    if cs.len() == 0 {
        Seq::empty()
    } else if cs.last().len() > 0 {
        nonempty_chains(cs.drop_last()).push(cs.last())
    } else {
        nonempty_chains(cs.drop_last())
    }
}

pub open spec fn chains_view(v: Seq<Vec<(String, bool)>>) -> Seq<Seq<(Seq<char>, bool)>> {
    v.map_values(|c: Vec<(String, bool)>| pairs_view(c@))
}

/// The scoped chains of a config may be `out`: one chain per region shader (empty when the
/// region is disabled), then the chain of each window-rule shader that resolved to a non-empty
/// chain.
pub open spec fn scoped_chains_spec<F: Fn(&str) -> Option<String>>(
    regions: Seq<RegionShader>,
    rules: Seq<WindowShaderPreset>,
    expand: F,
    out: Seq<Seq<(Seq<char>, bool)>>,
) -> bool {
    &&& out.len() >= regions.len()
    &&& forall|i: int| 0 <= i < regions.len() ==> region_chain(#[trigger] regions[i], expand, out[i])
    &&& exists|per_rule: Seq<Seq<(Seq<char>, bool)>>| {
        &&& per_rule.len() == rules.len()
        &&& forall|j: int| 0 <= j < rules.len() ==> window_chain(#[trigger] rules[j], expand, per_rule[j])
        &&& #[trigger] nonempty_chains(per_rule) == out.skip(regions.len() as int)
    }
}

/// Resolve every configured scoped shader (region shaders, then the shader blocks of window
/// rules) into its `(source, hyprland)` pass list, reading `path`s through `expand`. This is the
/// full set compiled into the scoped shader cache.
pub fn scoped_shader_chains<F: Fn(&str) -> Option<String>>(
    regions: &[RegionShader],
    rule_shaders: &[WindowShaderPreset],
    expand: &F,
) -> (r: Vec<Vec<(String, bool)>>)
    requires
        forall|x: &str| expand.requires((x,)),
    ensures
        scoped_chains_spec(regions@, rule_shaders@, *expand, chains_view(r@)),
{
    let mut chains: Vec<Vec<(String, bool)>> = Vec::new();
    let mut i: usize = 0;
    while i < regions.len()
        invariant
            i <= regions@.len(),
            forall|x: &str| expand.requires((x,)),
            chains@.len() == i,
            forall|j: int|
                0 <= j < i ==> region_chain(#[trigger] regions@[j], *expand, pairs_view(chains@[j]@)),
        decreases regions@.len() - i,
    {
        let c = regions[i].pass_sources(expand);
        chains.push(c);
        i = i + 1;
    }
    let ghost base = chains@;
    let ghost mut per_rule: Seq<Seq<(Seq<char>, bool)>> = Seq::empty();
    let mut k: usize = 0;
    while k < rule_shaders.len()
        invariant
            k <= rule_shaders@.len(),
            forall|x: &str| expand.requires((x,)),
            base.len() == regions@.len(),
            forall|j: int|
                0 <= j < regions@.len() ==> region_chain(#[trigger] regions@[j], *expand, pairs_view(base[j]@)),
            chains@.len() >= base.len(),
            chains@.subrange(0, base.len() as int) == base,
            per_rule.len() == k,
            forall|j: int| 0 <= j < k ==> window_chain(#[trigger] rule_shaders@[j], *expand, per_rule[j]),
            nonempty_chains(per_rule) == chains_view(chains@).skip(base.len() as int),
        decreases rule_shaders@.len() - k,
    {
        let c = rule_shaders[k].pass_sources(expand);
        let ghost cv = pairs_view(c@);
        proof {
            let old_pr = per_rule;
            per_rule = per_rule.push(cv);
            assert(per_rule.drop_last() =~= old_pr);
            assert(per_rule.last() == cv);
        }
        if c.len() > 0 {
            let ghost before = chains@;
            chains.push(c);
            assert(chains_view(chains@).skip(base.len() as int) =~= chains_view(before).skip(base.len() as int).push(cv));
        }
        k = k + 1;
    }
    assert(chains@.subrange(0, base.len() as int) == base);
    assert forall|j: int| 0 <= j < regions@.len() implies region_chain(
        #[trigger] regions@[j],
        *expand,
        chains_view(chains@)[j],
    ) by {
        assert(chains@[j] == base[j]);
    }
    chains
}

/// Resolve a global-shader config into an ordered list of `(source, hyprland)` passes. A disabled
/// shader has none; without passes the top-level `source`/`path` becomes a one-pass chain; if any
/// pass cannot be resolved the whole chain is dropped, so a partial chain never runs.
pub fn global_shader_pass_sources<F: Fn(&str) -> Option<String>>(
    cfg: &GlobalShader,
    expand: &F,
) -> (r: Vec<(String, bool)>)
    requires
        forall|x: &str| expand.requires((x,)),
    ensures
        !cfg.enable ==> r@.len() == 0,
        cfg.enable && cfg.passes@.len() == 0 ==> single_chain(
            PassView { source: opt_view(cfg.source), path: opt_view(cfg.path), mode: cfg.mode@ },
            *expand,
            pairs_view(r@),
        ),
        cfg.enable && cfg.passes@.len() > 0 ==> scoped_chain(cfg@.passes, *expand, pairs_view(r@)),
{
    if !cfg.enable {
        return Vec::new();
    }
    if cfg.passes.len() == 0 {
        let res = match resolve_scoped_leaf(&cfg.source, &cfg.path, cfg.mode.as_str(), expand) {
            Some(pair) => {
                let v = vec![pair];
                v
            },
            None => Vec::new(),
        };
        assert(pairs_view(res@).len() == res@.len());
        if res.len() == 1 {
            assert(pairs_view(res@)[0] == pair_view(res@[0]));
        }
        return res;
    }
    resolve_scoped_chain(cfg.passes.as_slice(), expand)
}

} // verus!
