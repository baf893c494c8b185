//! The runtime per-output shader override, driven by the `toggle-output-shader` and
//! `cycle-output-shader` actions. It is updated in place across a config reload, so the user's
//! choice survives an unrelated config edit.

use vstd::prelude::*;

use crate::text::str_eq;

verus! {

/// Which shader an output is currently showing, on top of its configured rule.
#[derive(Debug, Default, Clone, PartialEq, Eq)]
pub struct OutputShaderState {
    /// Selected `output-shaders` preset name; `None` = the output's configured `shader` rule.
    pub preset: Option<String>,
    /// When true, no shader renders on this output regardless of preset or rule.
    pub disabled: bool,
}

/// The state as plain values.
pub struct OutputShaderStateView {
    pub preset: Option<Seq<char>>,
    pub disabled: bool,
}

impl View for OutputShaderState {
    type V = OutputShaderStateView;

    open spec fn view(&self) -> OutputShaderStateView {
        OutputShaderStateView {
            preset: match self.preset {
                Some(p) => Some(p@),
                None => None,
            },
            disabled: self.disabled,
        }
    }
}

/// The names of a preset list.
pub open spec fn names_view(presets: Seq<String>) -> Seq<Seq<char>> {
    presets.map_values(|p: String| p@)
}

/// `i` is the first position of `name` in `names`.
pub open spec fn first_pos(names: Seq<Seq<char>>, name: Seq<char>, i: int) -> bool {
    &&& 0 <= i < names.len()
    &&& names[i] == name
    &&& forall|j: int| 0 <= j < i ==> #[trigger] names[j] != name
}

/// The first preset, if any.
pub open spec fn first_preset(names: Seq<Seq<char>>) -> Option<Seq<char>> {
    if names.len() > 0 {
        Some(names[0])
    } else {
        None
    }
}

/// The selection after one cycle step: default -> preset 1 -> … -> preset N -> default; a
/// selection that is no longer listed restarts at the first preset.
pub open spec fn cycle_spec(preset: Option<Seq<char>>, names: Seq<Seq<char>>) -> Option<Seq<char>> {
    match preset {
        None => first_preset(names),
        Some(cur) => if exists|i: int| first_pos(names, cur, i) {
            let i = choose|i: int| first_pos(names, cur, i);
            if i + 1 < names.len() {
                Some(names[i + 1])
            } else {
                None
            }
        } else {
            first_preset(names)
        },
    }
}

/// A selected preset is stale when it is no longer listed.
pub open spec fn is_stale(preset: Option<Seq<char>>, names: Seq<Seq<char>>) -> bool {
    match preset {
        Some(p) => !names.contains(p),
        None => false,
    }
}

/// The selection after `n` cycle steps.
pub open spec fn cycle_n(preset: Option<Seq<char>>, names: Seq<Seq<char>>, n: nat) -> Option<
    Seq<char>,
>
    decreases n,
{
    if n == 0 {
        preset
    } else {
        cycle_spec(cycle_n(preset, names, (n - 1) as nat), names)
    }
}

/// With distinct preset names, cycling from the configured rule visits the presets in order:
/// after `k` steps (`1 <= k <= N`) the `k`-th preset is selected.
pub proof fn lemma_cycle_visits_presets_in_order(names: Seq<Seq<char>>, k: nat)
    requires
        names.no_duplicates(),
        k <= names.len(),
    ensures
        cycle_n(None, names, k) == (if k == 0 {
            None
        } else {
            Some(names[k - 1])
        }),
    decreases k,
{
    if k == 1 {
        assert(cycle_n(None, names, 0) == None::<Seq<char>>);
    }
    if k > 1 {
        lemma_cycle_visits_presets_in_order(names, (k - 1) as nat);
        let cur = names[k - 2];
        assert(first_pos(names, cur, k - 2));
        let c = choose|c: int| first_pos(names, cur, c);
        assert(c == k - 2) by {
            if c != k - 2 {
                assert(names[c] == names[k - 2]);
            }
        }
        assert(cycle_n(None, names, (k - 1) as nat) == Some(cur));
        assert(cycle_spec(Some(cur), names) == Some(names[k - 1]));
        assert(cycle_n(None, names, k) == cycle_spec(cycle_n(None, names, (k - 1) as nat), names));
    }
}

/// With distinct preset names, `N + 1` cycle steps from the configured rule return to it.
pub proof fn lemma_cycle_returns_to_rule(names: Seq<Seq<char>>)
    requires
        names.no_duplicates(),
    ensures
        cycle_n(None, names, names.len() + 1) == None::<Seq<char>>,
{
    if names.len() > 0 {
        lemma_cycle_visits_presets_in_order(names, names.len());
        let cur = names[names.len() - 1];
        assert(first_pos(names, cur, names.len() - 1));
        let c = choose|c: int| first_pos(names, cur, c);
        assert(c == names.len() - 1) by {
            if c != names.len() - 1 {
                assert(names[c] == names[names.len() - 1]);
            }
        }
        assert(cycle_n(None, names, names.len()) == Some(cur));
        assert(cycle_spec(Some(cur), names) == None::<Seq<char>>);
        assert(cycle_n(None, names, names.len() + 1) == cycle_spec(
            cycle_n(None, names, names.len()),
            names,
        ));
    } else {
        assert(cycle_n(None, names, 0) == None::<Seq<char>>);
        assert(cycle_n(None, names, 1) == cycle_spec(cycle_n(None, names, 0), names));
    }
}

/// Clearing a stale preset leaves nothing stale, so a second clear reports nothing.
pub proof fn lemma_clear_stale_is_idempotent(preset: Option<Seq<char>>, names: Seq<Seq<char>>)
    ensures
        !is_stale(if is_stale(preset, names) { None } else { preset }, names),
{
}

fn clone_name(s: &String) -> (r: String)
    ensures
        r@ == s@,
{
    s.clone()
}

/// The first position of `name` among the preset names.
fn position_of(presets: &[String], name: &str) -> (r: Option<usize>)
    ensures
        match r {
            Some(k) => first_pos(names_view(presets@), name@, k as int),
            None => !names_view(presets@).contains(name@),
        },
{
    let ghost names = names_view(presets@);
    let mut i: usize = 0;
    while i < presets.len()
        invariant
            i <= presets@.len(),
            names == names_view(presets@),
            forall|j: int| 0 <= j < i ==> #[trigger] names[j] != name@,
        decreases presets@.len() - i,
    {
        if str_eq(presets[i].as_str(), name) {
            return Some(i);
        }
        i = i + 1;
    }
    assert(!names.contains(name@)) by {
        if names.contains(name@) {
            let j = choose|j: int| 0 <= j < names.len() && names[j] == name@;
            assert(names[j] != name@);
        }
    }
    None
}

impl OutputShaderState {
    /// Flip the shader on/off, keeping the preset selection.
    pub fn toggle(&mut self)
        ensures
            final(self)@.disabled == !old(self)@.disabled,
            final(self)@.preset == old(self)@.preset,
    {
        self.disabled = !self.disabled;
    }

    /// Advance to the next stop in default -> preset 1 -> … -> preset N -> default, re-enabling
    /// the shader. A preset name no longer in the config restarts at the first preset.
    pub fn cycle(&mut self, presets: &[String])
        ensures
            !final(self)@.disabled,
            final(self)@.preset == cycle_spec(old(self)@.preset, names_view(presets@)),
    {
        let ghost names = names_view(presets@);
        self.disabled = false;
        let next: Option<String> = match &self.preset {
            None => {
                if presets.len() > 0 {
                    assert(names[0] == presets@[0]@);
                    Some(clone_name(&presets[0]))
                } else {
                    None
                }
            },
            Some(cur) => {
                let found = position_of(presets, cur.as_str());
                match found {
                    Some(k) => {
                        assert(first_pos(names, cur@, k as int));
                        proof {
                            let c = choose|c: int| first_pos(names, cur@, c);
                            assert(c == k) by {
                                if c < k {
                                    assert(names[c] != cur@);
                                } else if c > k {
                                    assert(names[k as int] != cur@);
                                }
                            }
                        }
                        if k < presets.len() - 1 {
                            assert(names[k + 1] == presets@[k + 1]@);
                            Some(clone_name(&presets[k + 1]))
                        } else {
                            None
                        }
                    },
                    None => {
                        assert(!exists|c: int| first_pos(names, cur@, c)) by {
                            if exists|c: int| first_pos(names, cur@, c) {
                                let c = choose|c: int| first_pos(names, cur@, c);
                                assert(names.contains(cur@));
                            }
                        }
                        if presets.len() > 0 {
                            assert(names[0] == presets@[0]@);
                            Some(clone_name(&presets[0]))
                        } else {
                            None
                        }
                    },
                }
            },
        };
        self.preset = next;
    }

    /// Clear a selected preset name that no longer exists in `presets` (renamed or removed from
    /// `output-shaders` across a config reload), returning whether it cleared anything. Leaves
    /// `disabled` untouched: this re-resolves the selection, it does not toggle.
    pub fn clear_stale_preset(&mut self, presets: &[String]) -> (cleared: bool)
        ensures
            cleared == is_stale(old(self)@.preset, names_view(presets@)),
            final(self)@.preset == (if cleared {
                None
            } else {
                old(self)@.preset
            }),
            final(self)@.disabled == old(self)@.disabled,
    {
        let ghost names = names_view(presets@);
        let stale = match &self.preset {
            Some(name) => {
                match position_of(presets, name.as_str()) {
                    Some(k) => {
                        assert(names.contains(name@)) by {
                            assert(names[k as int] == name@);
                        }
                        false
                    },
                    None => true,
                }
            },
            None => false,
        };
        if stale {
            self.preset = None;
        }
        stale
    }
}

} // verus!
