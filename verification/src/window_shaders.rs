//! Named window-shader presets, applied to windows at runtime by the `toggle-window-shader` and
//! `cycle-window-shader` actions.

use vstd::prelude::*;

use crate::global_shader::{opt_view, resolve_pass_spec, GlobalShaderPassPart, PassView};
use crate::region_shader::{
    pairs_view, resolve_scoped_pass_sources, scoped_chain, single_chain,
};

verus! {

/// One `window-shaders` block; presets from all blocks accumulate in config order.
#[derive(Debug, Default, Clone, PartialEq)]
pub struct WindowShadersPart {
    pub presets: Vec<WindowShaderPreset>,
}

/// A named shader preset with the same source spec as a window-rule `shader {}` block.
#[derive(Debug, Default, Clone, PartialEq)]
pub struct WindowShaderPreset {
    pub name: String,
    pub source: Option<String>,
    pub path: Option<String>,
    pub mode: Option<String>,
    pub passes: Vec<GlobalShaderPassPart>,
}

/// The mode of a preset: its own, or the niri dialect.
pub open spec fn preset_mode(mode: Option<String>) -> Seq<char> {
    match mode {
        Some(m) => m@,
        None => "niri"@,
    }
}

impl WindowShaderPreset {
    /// Resolves this preset into its `(source, hyprland)` pass list: the top-level
    /// `source`/`path` as a one-pass chain when there are no passes, and empty when any pass
    /// cannot be resolved.
    pub fn pass_sources<F: Fn(&str) -> Option<String>>(&self, expand: F) -> (r: Vec<(String, bool)>)
        requires
            forall|x: &str| expand.requires((x,)),
        ensures
            self.passes@.len() == 0 ==> single_chain(
                PassView {
                    source: opt_view(self.source),
                    path: opt_view(self.path),
                    mode: preset_mode(self.mode),
                },
                expand,
                pairs_view(r@),
            ),
            self.passes@.len() > 0 ==> scoped_chain(
                self.passes@.map_values(
                    |p: GlobalShaderPassPart| resolve_pass_spec(p, preset_mode(self.mode)),
                ),
                expand,
                pairs_view(r@),
            ),
    {
        let mode: &str = match &self.mode {
            Some(m) => m.as_str(),
            None => "niri",
        };
        resolve_scoped_pass_sources(&self.source, &self.path, mode, self.passes.as_slice(), &expand)
    }
}

} // verus!
