//! How the passes of the global shader chain are wired each frame: which texture each sampler of
//! a pass reads. The renderer draws and reports whether a render succeeded; these functions
//! decide the bindings from what exists since last frame and from what the earlier steps of this
//! frame rendered.

use vstd::prelude::*;

verus! {

/// A texture a global pass samples, named by where it comes from.
#[derive(Clone, Copy, Debug, PartialEq, Eq, Structural)]
pub enum PassTexture {
    /// This frame's capture of the composited screen below the shader.
    Source,
    /// Last frame's capture of the screen.
    ScreenPrev,
    /// Pass `i`'s output last frame.
    PassPrev(usize),
    /// Pass `i`'s output this frame.
    PassOut(usize),
    /// Pass `i`'s dedicated buffer last frame.
    BufferPrev(usize),
    /// Pass `i`'s dedicated buffer this frame.
    BufferOut(usize),
}

/// What each sampler of a pass program reads.
#[derive(Clone, Copy, Debug, PartialEq, Eq, Structural)]
pub struct PassBindings {
    /// `niri_screen`: the pass's input.
    pub screen: PassTexture,
    /// `niri_source`: the unfiltered screen.
    pub source: PassTexture,
    /// `niri_prev`: the pass's own output last frame.
    pub prev: PassTexture,
    /// `niri_screen_prev`: the screen last frame.
    pub screen_prev: PassTexture,
    /// `niri_buffer`: the pass's dedicated buffer.
    pub buffer: PassTexture,
}

/// What is known of one pass before the frame is drawn.
#[derive(Clone, Copy, Debug, PartialEq, Eq, Structural)]
pub struct PassFacts {
    /// Its output from last frame exists.
    pub has_prev: bool,
    /// It has a dedicated-buffer program.
    pub has_buffer_program: bool,
    /// Its dedicated buffer from last frame exists.
    pub has_buffer_prev: bool,
}

/// Last frame's screen, or this frame's on the first frame.
pub open spec fn screen_prev_spec(has_screen_prev: bool) -> PassTexture {
    if has_screen_prev {
        PassTexture::ScreenPrev
    } else {
        PassTexture::Source
    }
}

/// A pass's `niri_prev`: its own output last frame, or its input on the first frame.
pub open spec fn prev_spec(i: usize, input: PassTexture, f: PassFacts) -> PassTexture {
    if f.has_prev {
        PassTexture::PassPrev(i)
    } else {
        input
    }
}

/// The bindings of pass `i`'s dedicated-buffer sub-pass, when it has a buffer program: like the
/// display program's, with last frame's buffer (or last frame's screen, when there is none) as
/// `niri_buffer`.
pub open spec fn buffer_subpass_spec(
    i: usize,
    input: PassTexture,
    f: PassFacts,
    has_screen_prev: bool,
) -> Option<PassBindings> {
    if f.has_buffer_program {
        Some(
            PassBindings {
                screen: input,
                source: PassTexture::Source,
                prev: prev_spec(i, input, f),
                screen_prev: screen_prev_spec(has_screen_prev),
                buffer: if f.has_buffer_prev {
                    PassTexture::BufferPrev(i)
                } else {
                    screen_prev_spec(has_screen_prev)
                },
            },
        )
    } else {
        None
    }
}

/// The bindings of pass `i`'s display program. Its `niri_buffer` is the buffer the sub-pass just
/// rendered, and otherwise (no buffer program, or the sub-pass failed) its own `niri_prev`.
pub open spec fn display_spec(
    i: usize,
    input: PassTexture,
    f: PassFacts,
    has_screen_prev: bool,
    buffer_rendered: bool,
) -> PassBindings {
    PassBindings {
        screen: input,
        source: PassTexture::Source,
        prev: prev_spec(i, input, f),
        screen_prev: screen_prev_spec(has_screen_prev),
        buffer: if f.has_buffer_program && buffer_rendered {
            PassTexture::BufferOut(i)
        } else {
            prev_spec(i, input, f)
        },
    }
}

/// The input of the pass after pass `i`: what pass `i` rendered, or, when its render failed,
/// pass `i`'s own input carried forward.
pub open spec fn next_input_spec(i: usize, input: PassTexture, rendered: bool) -> PassTexture {
    if rendered {
        PassTexture::PassOut(i)
    } else {
        input
    }
}

/// The input of pass `i`, given which of the passes before it rendered: the real screen for the
/// first pass, and then each pass's input follows from the one before.
pub open spec fn chain_input(rendered: Seq<bool>, i: int) -> PassTexture
    decreases i,
{
    if i <= 0 {
        PassTexture::Source
    } else {
        next_input_spec((i - 1) as usize, chain_input(rendered, i - 1), rendered[i - 1])
    }
}

/// Whether the chain runs this frame: it has at least one pass and every pass's display program
/// is loaded. Otherwise the captured screen is drawn unchanged.
pub fn chain_ready(loaded: &[bool]) -> (r: bool)
    ensures
        r == (loaded@.len() > 0 && forall|i: int| 0 <= i < loaded@.len() ==> #[trigger] loaded@[i]),
{
    if loaded.len() == 0 {
        return false;
    }
    let mut i: usize = 0;
    while i < loaded.len()
        invariant
            i <= loaded@.len(),
            forall|j: int| 0 <= j < i ==> #[trigger] loaded@[j],
        decreases loaded@.len() - i,
    {
        if !loaded[i] {
            return false;
        }
        i = i + 1;
    }
    true
}

/// The bindings of pass `i`'s dedicated-buffer sub-pass, or `None` when it has no buffer program.
pub fn buffer_subpass_bindings(
    i: usize,
    input: PassTexture,
    f: PassFacts,
    has_screen_prev: bool,
) -> (b: Option<PassBindings>)
    ensures
        b == buffer_subpass_spec(i, input, f, has_screen_prev),
{
    if !f.has_buffer_program {
        return None;
    }
    let screen_prev = if has_screen_prev {
        PassTexture::ScreenPrev
    } else {
        PassTexture::Source
    };
    let prev = if f.has_prev {
        PassTexture::PassPrev(i)
    } else {
        input
    };
    let buffer = if f.has_buffer_prev {
        PassTexture::BufferPrev(i)
    } else {
        screen_prev
    };
    Some(PassBindings { screen: input, source: PassTexture::Source, prev, screen_prev, buffer })
}

/// The bindings of pass `i`'s display program; `buffer_rendered` says whether its buffer sub-pass
/// rendered this frame.
pub fn display_pass_bindings(
    i: usize,
    input: PassTexture,
    f: PassFacts,
    has_screen_prev: bool,
    buffer_rendered: bool,
) -> (b: PassBindings)
    ensures
        b == display_spec(i, input, f, has_screen_prev, buffer_rendered),
{
    let screen_prev = if has_screen_prev {
        PassTexture::ScreenPrev
    } else {
        PassTexture::Source
    };
    let prev = if f.has_prev {
        PassTexture::PassPrev(i)
    } else {
        input
    };
    let buffer = if f.has_buffer_program && buffer_rendered {
        PassTexture::BufferOut(i)
    } else {
        prev
    };
    PassBindings { screen: input, source: PassTexture::Source, prev, screen_prev, buffer }
}

/// The input of the pass after pass `i`, given whether pass `i` rendered.
pub fn next_pass_input(i: usize, input: PassTexture, rendered: bool) -> (t: PassTexture)
    ensures
        t == next_input_spec(i, input, rendered),
{
    if rendered {
        PassTexture::PassOut(i)
    } else {
        input
    }
}

/// What every program of a pass reads, the buffer sub-pass and the display program alike:
/// `niri_screen` is the pass's input, `niri_source` this frame's screen, `niri_screen_prev` last
/// frame's screen when it exists (this frame's on the first frame), and `niri_prev` the pass's
/// own output last frame when it exists (its input otherwise). The buffer sub-pass reads last
/// frame's buffer, or last frame's screen when there is none; the display program reads the
/// buffer just rendered, or its own `niri_prev` when there is none.
pub proof fn lemma_pass_bindings(
    i: usize,
    input: PassTexture,
    f: PassFacts,
    has_screen_prev: bool,
    buffer_rendered: bool,
)
    ensures
        ({
            let d = display_spec(i, input, f, has_screen_prev, buffer_rendered);
            &&& d.screen == input
            &&& d.source == PassTexture::Source
            &&& has_screen_prev ==> d.screen_prev == PassTexture::ScreenPrev
            &&& !has_screen_prev ==> d.screen_prev == PassTexture::Source
            &&& f.has_prev ==> d.prev == PassTexture::PassPrev(i)
            &&& !f.has_prev ==> d.prev == input
            &&& f.has_buffer_program && buffer_rendered ==> d.buffer == PassTexture::BufferOut(i)
            &&& !(f.has_buffer_program && buffer_rendered) ==> d.buffer == d.prev
        }),
        ({
            let b = buffer_subpass_spec(i, input, f, has_screen_prev);
            let d = display_spec(i, input, f, has_screen_prev, buffer_rendered);
            &&& b is Some <==> f.has_buffer_program
            &&& b matches Some(b) ==> {
                &&& b.screen == d.screen
                &&& b.source == d.source
                &&& b.prev == d.prev
                &&& b.screen_prev == d.screen_prev
                &&& f.has_buffer_prev ==> b.buffer == PassTexture::BufferPrev(i)
                &&& !f.has_buffer_prev ==> b.buffer == d.screen_prev
            }
        }),
{
}

/// Each pass reads the previous pass's output: the first pass reads the real screen, and a pass
/// after one that rendered reads what that pass rendered.
pub proof fn lemma_pass_reads_previous_output(rendered: Seq<bool>, i: int)
    requires
        0 <= i <= rendered.len(),
    ensures
        i == 0 ==> chain_input(rendered, i) == PassTexture::Source,
        i > 0 && rendered[i - 1] ==> chain_input(rendered, i) == PassTexture::PassOut((i - 1) as usize),
{
}

/// The input of pass `i` is the output of the last pass before it that rendered, or the real
/// screen when none did: a pass that fails hands its own input on unchanged.
pub proof fn lemma_input_is_last_rendered(rendered: Seq<bool>, i: int)
    requires
        0 <= i <= rendered.len(),
    ensures
        (forall|j: int| 0 <= j < i ==> !#[trigger] rendered[j]) ==> chain_input(rendered, i)
            == PassTexture::Source,
        forall|j: int|
            0 <= j < i && #[trigger] rendered[j] && (forall|m: int| j < m < i ==> !rendered[m])
                ==> chain_input(rendered, i) == PassTexture::PassOut(j as usize),
    decreases i,
{
    if i > 0 {
        lemma_input_is_last_rendered(rendered, i - 1);
        if !rendered[i - 1] {
            assert forall|j: int|
                0 <= j < i && #[trigger] rendered[j] && (forall|m: int| j < m < i ==> !rendered[m])
                    implies chain_input(rendered, i) == PassTexture::PassOut(j as usize) by {
                assert(j != i - 1);
            }
        } else {
            assert forall|j: int|
                0 <= j < i && #[trigger] rendered[j] && (forall|m: int| j < m < i ==> !rendered[m])
                    implies chain_input(rendered, i) == PassTexture::PassOut(j as usize) by {
                if j < i - 1 {
                    assert(!rendered[i - 1]);
                }
            }
        }
    }
}

} // verus!
