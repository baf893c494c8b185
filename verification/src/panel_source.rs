//! The published side of a carousel panel's ping-pong offscreen pair.
//!
//! `flip` names the buffer the next render targets (the scratch buffer). The published element,
//! the flip and the generation change only when a render produced damage; `generation` is the
//! identity a host compares to decide whether to rebuild its retained copy, so it is carried over
//! every reset and never repeats for a buffer while it has not wrapped around.
//!
//! The element type `E` (the renderer's offscreen element) and the extent type `X` (the logical
//! bounding box of the baked workspaces) are the caller's; nothing here reads inside them.

use vstd::prelude::*;

verus! {

pub struct PanelSource<E, X> {
    /// Scratch buffer index that the next render targets; toggled only on publish.
    pub flip: bool,
    /// The retained element of the last published (damage-producing) render.
    pub elem: Option<E>,
    /// Bumped (wrapping) on every publish; carried over by `clear`.
    pub generation: u64,
    /// Frame stamp this source was last updated at.
    pub frame: u64,
    /// The extent that produced the currently published element.
    pub last_extent: Option<X>,
}

impl<E, X> PanelSource<E, X> {
    /// This source reset to the fresh state, keeping its generation.
    pub open spec fn cleared(self) -> Self {
        PanelSource {
            flip: false,
            elem: None,
            generation: self.generation,
            frame: 0,
            last_extent: None,
        }
    }

    /// The fresh, never-rendered state with the given generation.
    pub open spec fn is_fresh_with(&self, generation: u64) -> bool {
        &&& self.elem is None
        &&& self.generation == generation
        &&& !self.flip
        &&& self.frame == 0
        &&& self.last_extent is None
    }

    /// Resets to the fresh (never-rendered) state, dropping the retained published element, but
    /// keeps `generation`: the backing buffers outlive this reset, so a publish right after it
    /// must still present a generation the host has never seen for that buffer.
    pub fn clear(&mut self)
        ensures
            *final(self) == old(self).cleared(),
            final(self).is_fresh_with(old(self).generation),
    {
        let generation = self.generation;
        *self = PanelSource { flip: false, elem: None, generation, frame: 0, last_extent: None };
    }

    /// The extent-change reset: clear, then remember the extent the next publish is baked at.
    pub fn reset_extent(&mut self, extent: Option<X>)
        ensures
            final(self).elem is None,
            final(self).generation == old(self).generation,
            !final(self).flip,
            final(self).frame == 0,
            final(self).last_extent == extent,
    {
        self.clear();
        self.last_extent = extent;
    }

    /// Records the outcome of this cycle's render at frame stamp `frame`: `Some((elem, damaged))`
    /// for a render that succeeded, `None` for one that failed. A damaged render publishes its
    /// element, toggles the scratch slot and bumps the generation; an undamaged one leaves the
    /// published side untouched; a failed one drops the published element.
    pub fn finish_render(&mut self, frame: u64, outcome: Option<(E, bool)>)
        ensures
            final(self).frame == frame,
            final(self).last_extent == old(self).last_extent,
            match outcome {
                Some((e, true)) => {
                    &&& final(self).elem == Some(e)
                    &&& final(self).flip == !old(self).flip
                    &&& final(self).generation == (if old(self).generation == u64::MAX {
                        0
                    } else {
                        old(self).generation + 1
                    })
                },
                Some((_, false)) => {
                    &&& final(self).elem == old(self).elem
                    &&& final(self).flip == old(self).flip
                    &&& final(self).generation == old(self).generation
                },
                None => {
                    &&& final(self).elem is None
                    &&& final(self).flip == old(self).flip
                    &&& final(self).generation == old(self).generation
                },
            },
    {
        self.frame = frame;
        match outcome {
            Some((elem, damaged)) => {
                if damaged {
                    self.elem = Some(elem);
                    self.flip = !self.flip;
                    self.generation = self.generation.wrapping_add(1);
                }
            },
            None => {
                self.elem = None;
            },
        }
    }
}

impl<E, X> Default for PanelSource<E, X> {
    fn default() -> (s: Self)
        ensures
            s.is_fresh_with(0),
    {
        PanelSource { flip: false, elem: None, generation: 0, frame: 0, last_extent: None }
    }
}

/// Clearing keeps the generation, and clearing again changes nothing: however many resets run
/// between two publishes, the generation they leave is the one held before them.
pub proof fn lemma_clear_keeps_generation<E, X>(s: PanelSource<E, X>)
    ensures
        s.cleared().generation == s.generation,
        s.cleared().cleared() == s.cleared(),
        s.cleared().is_fresh_with(s.generation),
{
}

} // verus!
