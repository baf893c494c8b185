//! The decisions a focus ring or border makes on each update: whether it is drawn at all,
//! whether it animates, which custom shader program it uses, whether it stays hollow, and
//! whether its light spill is on. The ring's geometry (sizes, radii, padding) is floating point
//! and stays with the renderer, which passes in the few comparisons it needs as booleans.

use vstd::prelude::*;

use crate::decoration_shader::DecorationShader;

verus! {

/// Which configured colour the ring takes.
#[derive(Debug, Clone, Copy, PartialEq, Eq, Structural)]
pub enum RingColor {
    Urgent,
    Active,
    Inactive,
}

/// What one update of a ring decides.
#[derive(Debug, Clone, Copy, PartialEq, Eq, Structural)]
pub struct FocusRingDecision {
    /// The ring is drawn at all.
    pub enabled: bool,
    /// The legacy rainbow-ripple effect runs.
    pub ripple: bool,
    /// The program key of the custom shader in use, if one is.
    pub custom_key: Option<u64>,
    /// The ring needs continuous redraws.
    pub animating: bool,
    /// The ring is drawn as a hollow border around the window rather than as a full quad.
    pub hollow: bool,
    /// The ring is drawn through the border shader rather than as solid colour.
    pub use_border_shader: bool,
    /// The inner rounded corners get the extra half pixel against background bleed.
    pub thicken_inner_corners: bool,
    /// The custom shader's light spill is drawn.
    pub light: bool,
    /// The colour the ring takes.
    pub color: RingColor,
}

/// The key a shader contributes when the ring is enabled: its own key (none when it is disabled
/// or has no source).
pub open spec fn shader_key(enabled: bool, shader: Option<DecorationShader>) -> Option<u64> {
    match shader {
        Some(s) => if enabled && s.enable {
            s.key
        } else {
            None
        },
        None => None,
    }
}

/// The decisions of one ring update.
///
/// `width_positive`, `alpha_positive` and `colour_visible` are the renderer's comparisons: the
/// configured width is above zero, the ring's alpha is above zero, and the chosen colour (or one
/// end of the chosen gradient) is not fully transparent. `ripple` is the legacy effect as
/// `(enable, speed above zero)`; `rounded` and `has_gradient` say whether the corner radius is
/// non-zero and whether a gradient is configured for the chosen colour.
pub open spec fn focus_ring_spec(
    is_active: bool,
    is_urgent: bool,
    off: bool,
    width_positive: bool,
    alpha_positive: bool,
    is_border: bool,
    ripple: Option<(bool, bool)>,
    shader: Option<DecorationShader>,
    colour_visible: bool,
    rounded: bool,
    has_gradient: bool,
    thicken_corners: bool,
) -> FocusRingDecision {
    let enabled = is_active && !is_urgent && !off && width_positive && alpha_positive;
    let key = shader_key(enabled, shader);
    let custom = key is Some;
    let effect = match ripple {
        Some((enable, _)) => enable && enabled && shader is None,
        None => false,
    };
    let effect_moves = match ripple {
        Some((_, moving)) => moving,
        None => false,
    };
    let custom_moves = match shader {
        Some(s) => s.animated && s.speed > 0,
        None => false,
    };
    let draw_inside = match shader {
        Some(s) => s.draw_inside,
        None => false,
    };
    let has_effect = effect || custom;
    FocusRingDecision {
        enabled,
        ripple: effect,
        custom_key: key,
        animating: ((effect && effect_moves) || (custom && custom_moves)) && colour_visible,
        hollow: (is_border || has_effect) && !(custom && draw_inside),
        use_border_shader: has_effect || rounded || has_gradient,
        thicken_inner_corners: thicken_corners && !has_effect,
        light: custom && match shader {
            Some(s) => match s.light {
                Some(l) => l.enable && l.intensity > 0,
                None => false,
            },
            None => false,
        },
        color: if is_urgent {
            RingColor::Urgent
        } else if is_active {
            RingColor::Active
        } else {
            RingColor::Inactive
        },
    }
}

pub open spec fn opt_shader(shader: Option<&DecorationShader>) -> Option<DecorationShader> {
    match shader {
        Some(s) => Some(*s),
        None => None,
    }
}

/// Decides one update of a focus ring or border. An explicit shader block, including a disabled
/// one, overrides the legacy ripple effect; a ring with a custom shader, or the ripple, stays
/// hollow behind the window unless the shader draws inside; a transparent ring never animates.
pub fn focus_ring_decision(
    is_active: bool,
    is_urgent: bool,
    off: bool,
    width_positive: bool,
    alpha_positive: bool,
    is_border: bool,
    ripple: Option<(bool, bool)>,
    shader: Option<&DecorationShader>,
    colour_visible: bool,
    rounded: bool,
    has_gradient: bool,
    thicken_corners: bool,
) -> (d: FocusRingDecision)
    ensures
        d == focus_ring_spec(
            is_active,
            is_urgent,
            off,
            width_positive,
            alpha_positive,
            is_border,
            ripple,
            opt_shader(shader),
            colour_visible,
            rounded,
            has_gradient,
            thicken_corners,
        ),
{
    let enabled = is_active && !is_urgent && !off && width_positive && alpha_positive;
    let key = match shader {
        Some(s) => if enabled {
            s.key()
        } else {
            None
        },
        None => None,
    };
    let custom = key.is_some();
    let (effect, effect_moves) = match ripple {
        Some((enable, moving)) => (enable && enabled && shader.is_none(), moving),
        None => (false, false),
    };
    let (custom_moves, draw_inside, light_on) = match shader {
        Some(s) => (
            s.animated && s.speed > 0,
            s.draw_inside,
            match s.light {
                Some(l) => l.enable && l.intensity > 0,
                None => false,
            },
        ),
        None => (false, false, false),
    };
    let has_effect = effect || custom;
    FocusRingDecision {
        enabled,
        ripple: effect,
        custom_key: key,
        animating: ((effect && effect_moves) || (custom && custom_moves)) && colour_visible,
        hollow: (is_border || has_effect) && !(custom && draw_inside),
        use_border_shader: has_effect || rounded || has_gradient,
        thicken_inner_corners: thicken_corners && !has_effect,
        light: custom && light_on,
        color: if is_urgent {
            RingColor::Urgent
        } else if is_active {
            RingColor::Active
        } else {
            RingColor::Inactive
        },
    }
}

/// The animation state a ring keeps between updates: whether its last update animates, the
/// custom program it uses, and whether that program was found in the cache at the last draw.
#[derive(Debug, Clone, Copy, PartialEq, Eq, Structural)]
pub struct FocusRingState {
    pub animating: bool,
    pub custom_key: Option<u64>,
    pub custom_shader_available: bool,
}

impl FocusRingState {
    /// A ring before its first update.
    pub fn new() -> (s: Self)
        ensures
            s == (FocusRingState { animating: false, custom_key: None, custom_shader_available: true }),
    {
        FocusRingState { animating: false, custom_key: None, custom_shader_available: true }
    }

    /// Takes an update's decision. A change of custom program assumes the new one available
    /// until a draw finds otherwise.
    pub fn apply(&mut self, d: &FocusRingDecision)
        ensures
            final(self).animating == d.animating,
            final(self).custom_key == d.custom_key,
            final(self).custom_shader_available == if old(self).custom_key != d.custom_key {
                true
            } else {
                old(self).custom_shader_available
            },
    {
        self.animating = d.animating;
        if self.custom_key != d.custom_key {
            self.custom_key = d.custom_key;
            self.custom_shader_available = true;
        }
    }

    /// Records whether a draw found the custom program in the cache.
    pub fn set_available(&mut self, available: bool)
        ensures
            final(self).animating == old(self).animating,
            final(self).custom_key == old(self).custom_key,
            final(self).custom_shader_available == (old(self).custom_key is Some && available) || (
            old(self).custom_key is None && old(self).custom_shader_available),
    {
        if self.custom_key.is_some() {
            self.custom_shader_available = available;
        }
    }

    /// Whether the ring needs continuous redraws: it animates, and its custom program (if any)
    /// compiled. A ring whose shader failed falls back to its colours and stops redrawing.
    pub fn is_animating(&self) -> (b: bool)
        ensures
            b == (self.animating && (self.custom_key is None || self.custom_shader_available)),
    {
        self.animating && (self.custom_key.is_none() || self.custom_shader_available)
    }
}

/// A ring that is not drawn neither animates nor uses a custom program, and a ring that animates
/// has a visible colour.
pub proof fn lemma_disabled_ring_is_inert(
    is_active: bool,
    is_urgent: bool,
    off: bool,
    width_positive: bool,
    alpha_positive: bool,
    is_border: bool,
    ripple: Option<(bool, bool)>,
    shader: Option<DecorationShader>,
    colour_visible: bool,
    rounded: bool,
    has_gradient: bool,
    thicken_corners: bool,
)
    ensures
        ({
            let d = focus_ring_spec(
                is_active,
                is_urgent,
                off,
                width_positive,
                alpha_positive,
                is_border,
                ripple,
                shader,
                colour_visible,
                rounded,
                has_gradient,
                thicken_corners,
            );
            &&& !d.enabled ==> !d.animating && d.custom_key is None && !d.ripple && !d.light
            &&& d.animating ==> colour_visible
        }),
{
}

/// A ring drawn by the ripple effect, or by a custom shader that does not draw inside, stays
/// hollow, so a translucent window never shows the ring through it.
pub proof fn lemma_effect_rings_stay_hollow(
    is_active: bool,
    is_urgent: bool,
    off: bool,
    width_positive: bool,
    alpha_positive: bool,
    is_border: bool,
    ripple: Option<(bool, bool)>,
    shader: Option<DecorationShader>,
    colour_visible: bool,
    rounded: bool,
    has_gradient: bool,
    thicken_corners: bool,
)
    ensures
        ({
            let d = focus_ring_spec(
                is_active,
                is_urgent,
                off,
                width_positive,
                alpha_positive,
                is_border,
                ripple,
                shader,
                colour_visible,
                rounded,
                has_gradient,
                thicken_corners,
            );
            let draw_inside = match shader {
                Some(s) => s.draw_inside,
                None => false,
            };
            &&& d.ripple ==> d.hollow
            &&& d.custom_key is Some && !draw_inside ==> d.hollow
            &&& d.custom_key is Some && draw_inside ==> !d.hollow
        }),
{
}

/// A custom shader set to `animated false`, or with speed zero, never makes the ring redraw.
pub proof fn lemma_static_shader_does_not_animate(
    is_active: bool,
    is_urgent: bool,
    off: bool,
    width_positive: bool,
    alpha_positive: bool,
    is_border: bool,
    ripple: Option<(bool, bool)>,
    s: DecorationShader,
    colour_visible: bool,
    rounded: bool,
    has_gradient: bool,
    thicken_corners: bool,
)
    requires
        !s.animated || s.speed <= 0,
    ensures
        !focus_ring_spec(
            is_active,
            is_urgent,
            off,
            width_positive,
            alpha_positive,
            is_border,
            ripple,
            Some(s),
            colour_visible,
            rounded,
            has_gradient,
            thicken_corners,
        ).animating,
{
}

/// The ring's colour and whether it is drawn: an urgent window takes the urgent colour, else the
/// focused one the active colour, else the inactive colour; the ring is drawn exactly for the
/// focused, non-urgent window when it is not turned off, has a width and is not transparent. A
/// drawn ring with an enabled shader that has a key uses that key; a moving custom shader, or a
/// moving ripple, animates a visible ring; rounded corners or a gradient need the border shader.
pub proof fn lemma_ring_colour_and_drawing(
    is_active: bool,
    is_urgent: bool,
    off: bool,
    width_positive: bool,
    alpha_positive: bool,
    is_border: bool,
    ripple: Option<(bool, bool)>,
    shader: Option<DecorationShader>,
    colour_visible: bool,
    rounded: bool,
    has_gradient: bool,
    thicken_corners: bool,
)
    ensures
        ({
            let d = focus_ring_spec(
                is_active,
                is_urgent,
                off,
                width_positive,
                alpha_positive,
                is_border,
                ripple,
                shader,
                colour_visible,
                rounded,
                has_gradient,
                thicken_corners,
            );
            &&& is_urgent ==> d.color == RingColor::Urgent
            &&& !is_urgent && is_active ==> d.color == RingColor::Active
            &&& !is_urgent && !is_active ==> d.color == RingColor::Inactive
            &&& d.enabled == (is_active && !is_urgent && !off && width_positive && alpha_positive)
            &&& match shader {
                Some(s) => {
                    &&& d.enabled && s.enable && s.key is Some ==> d.custom_key == s.key
                    &&& d.custom_key is Some ==> s.enable && s.key == d.custom_key
                    &&& d.custom_key is Some && s.animated && s.speed > 0 && colour_visible
                        ==> d.animating
                },
                None => d.custom_key is None,
            }
            &&& (ripple == Some((true, true)) && d.enabled && shader is None && colour_visible)
                ==> d.ripple && d.animating
            &&& (rounded || has_gradient) ==> d.use_border_shader
            &&& d.ripple <==> (d.enabled && shader is None && match ripple {
                Some((e, _)) => e,
                None => false,
            })
            &&& d.custom_key is Some ==> !d.ripple
            &&& d.light <==> (d.custom_key is Some && match shader {
                Some(s) => match s.light {
                    Some(l) => l.enable && l.intensity > 0,
                    None => false,
                },
                None => false,
            })
            &&& d.animating ==> colour_visible && ((d.ripple && match ripple {
                Some((_, m)) => m,
                None => false,
            }) || (d.custom_key is Some && match shader {
                Some(s) => s.animated && s.speed > 0,
                None => false,
            }))
            &&& (!d.ripple && d.custom_key is None) ==> d.thicken_inner_corners == thicken_corners
                && d.use_border_shader == (rounded || has_gradient) && d.hollow == is_border
        }),
{
}

} // verus!
