//! Shaders scoped to part of the screen (`region-shader`) or to one window, and the resolution of
//! a scoped shader spec into its ordered `(source, hyprland)` pass list.
//!
//! A `path` is turned into its contents by a caller-supplied `expand` function (in the compositor,
//! reading the file). Its answer may differ from call to call, so the contracts say which answer
//! each result is built from.

use vstd::prelude::*;

use crate::global_shader::{
    clone_opt, opt_view, resolve_pass_spec, GlobalShaderPass, GlobalShaderPassPart, PassView,
};
use crate::text::{is_blank, str_eq, str_is_blank};

verus! {

/// `expand`, called with a string whose characters are `path`, may return `out`.
pub open spec fn expands_to<F: Fn(&str) -> Option<String>>(
    expand: F,
    path: Seq<char>,
    out: Option<Seq<char>>,
) -> bool {
    exists|x: &str, r: Option<String>|
        x@ == path && #[trigger] call_ensures(expand, (x,), r) && opt_view(r) == out
}

/// Whether a mode names the Hyprland dialect.
pub open spec fn is_hyprland(mode: Seq<char>) -> bool {
    mode == "hyprland"@
}

/// A resolved pass as plain values.
pub open spec fn pair_view(p: (String, bool)) -> (Seq<char>, bool) {
    (p.0@, p.1)
}

pub open spec fn opt_pair_view(p: Option<(String, bool)>) -> Option<(Seq<char>, bool)> {
    match p {
        Some(q) => Some(pair_view(q)),
        None => None,
    }
}

pub open spec fn pairs_view(v: Seq<(String, bool)>) -> Seq<(Seq<char>, bool)> {
    v.map_values(|p: (String, bool)| pair_view(p))
}

/// One scoped leaf (`source` or `path`, never both) may resolve to `out`: a non-blank inline
/// source is taken as is, a path is taken from `expand`, and anything else is unresolvable.
pub open spec fn scoped_leaf<F: Fn(&str) -> Option<String>>(
    leaf: PassView,
    expand: F,
    out: Option<(Seq<char>, bool)>,
) -> bool {
    let hypr = is_hyprland(leaf.mode);
    match (leaf.source, leaf.path) {
        (Some(s), None) => if is_blank(s) {
            out is None
        } else {
            out == Some((s, hypr))
        },
        (None, Some(p)) => expands_to(
            expand,
            p,
            match out {
                Some(o) => Some(o.0),
                None => None,
            },
        ) && (out matches Some(o) ==> o.1 == hypr),
        _ => out is None,
    }
}

/// A chain of scoped leaves may resolve to `out`: either every leaf resolves, in order, or some
/// leaf is unresolvable and the whole chain is dropped.
pub open spec fn scoped_chain<F: Fn(&str) -> Option<String>>(
    legs: Seq<PassView>,
    expand: F,
    out: Seq<(Seq<char>, bool)>,
) -> bool {
    ||| out.len() == legs.len() && forall|i: int|
        0 <= i < legs.len() ==> scoped_leaf(#[trigger] legs[i], expand, Some(out[i]))
    ||| out.len() == 0 && exists|k: int| 0 <= k < legs.len() && scoped_leaf(#[trigger] legs[k], expand, None)
}

/// A chain never resolves partially: either every pass resolves or none is kept.
pub proof fn lemma_scoped_chain_all_or_nothing<F: Fn(&str) -> Option<String>>(
    legs: Seq<PassView>,
    expand: F,
    out: Seq<(Seq<char>, bool)>,
)
    requires
        scoped_chain(legs, expand, out),
    ensures
        out.len() == 0 || out.len() == legs.len(),
{
}

/// A single leaf used as a whole chain: one pass when it resolves, none otherwise.
pub open spec fn single_chain<F: Fn(&str) -> Option<String>>(
    leaf: PassView,
    expand: F,
    out: Seq<(Seq<char>, bool)>,
) -> bool {
    ||| out.len() == 1 && scoped_leaf(leaf, expand, Some(out[0]))
    ||| out.len() == 0 && scoped_leaf(leaf, expand, None)
}

/// Resolves one scoped leaf.
pub fn resolve_scoped_leaf<F: Fn(&str) -> Option<String>>(
    source: &Option<String>,
    path: &Option<String>,
    mode: &str,
    expand: &F,
) -> (r: Option<(String, bool)>)
    requires
        forall|x: &str| expand.requires((x,)),
    ensures
        scoped_leaf(
            PassView { source: opt_view(*source), path: opt_view(*path), mode: mode@ },
            *expand,
            opt_pair_view(r),
        ),
{
    let hypr = str_eq(mode, "hyprland");
    match (source, path) {
        (Some(s), None) => {
            if str_is_blank(s.as_str()) {
                None
            } else {
                Some((s.clone(), hypr))
            }
        },
        (None, Some(p)) => {
            let x = p.as_str();
            let got = expand(x);
            match got {
                Some(text) => Some((text, hypr)),
                None => None,
            }
        },
        _ => None,
    }
}

/// Resolves a chain of scoped passes; any unresolvable pass empties the result.
pub fn resolve_scoped_chain<F: Fn(&str) -> Option<String>>(
    passes: &[GlobalShaderPass],
    expand: &F,
) -> (r: Vec<(String, bool)>)
    requires
        forall|x: &str| expand.requires((x,)),
    ensures
        scoped_chain(passes@.map_values(|p: GlobalShaderPass| p@), *expand, pairs_view(r@)),
{
    let ghost legs = passes@.map_values(|p: GlobalShaderPass| p@);
    let mut out: Vec<(String, bool)> = Vec::new();
    let mut i: usize = 0;
    while i < passes.len()
        invariant
            i <= passes@.len(),
            legs == passes@.map_values(|p: GlobalShaderPass| p@),
            forall|x: &str| expand.requires((x,)),
            out@.len() == i,
            forall|j: int|
                0 <= j < i ==> scoped_leaf(#[trigger] legs[j], *expand, Some(pair_view(out@[j]))),
        decreases passes@.len() - i,
    {
        let p = &passes[i];
        match resolve_scoped_leaf(&p.source, &p.path, p.mode.as_str(), expand) {
            Some(pair) => {
                out.push(pair);
            },
            None => {
                assert(scoped_leaf(legs[i as int], *expand, None));
                let empty: Vec<(String, bool)> = Vec::new();
                assert(pairs_view(empty@) =~= Seq::<(Seq<char>, bool)>::empty());
                return empty;
            },
        }
        i = i + 1;
    }
    assert forall|j: int| 0 <= j < legs.len() implies scoped_leaf(
        #[trigger] legs[j],
        *expand,
        Some(pairs_view(out@)[j]),
    ) by {
        assert(pairs_view(out@)[j] == pair_view(out@[j]));
    }
    out
}

/// Resolves a scoped shader spec into its pass list. With no `passes`, the top-level
/// `source`/`path` becomes a one-pass chain; each pass without a `mode` takes `mode`.
pub fn resolve_scoped_pass_sources<F: Fn(&str) -> Option<String>>(
    source: &Option<String>,
    path: &Option<String>,
    mode: &str,
    passes: &[GlobalShaderPassPart],
    expand: &F,
) -> (r: Vec<(String, bool)>)
    requires
        forall|x: &str| expand.requires((x,)),
    ensures
        passes@.len() == 0 ==> single_chain(
            PassView { source: opt_view(*source), path: opt_view(*path), mode: mode@ },
            *expand,
            pairs_view(r@),
        ),
        passes@.len() > 0 ==> scoped_chain(
            passes@.map_values(|p: GlobalShaderPassPart| resolve_pass_spec(p, mode@)),
            *expand,
            pairs_view(r@),
        ),
{
    if passes.len() == 0 {
        let res = match resolve_scoped_leaf(source, path, mode, expand) {
            Some(pair) => {
                let v = vec![pair];
                v
            },
            None => Vec::new(),
        };
        assert(pairs_view(res@).len() == res@.len());
        if res.len() == 1 {
            assert(pairs_view(res@)[0] == pair_view(res@[0]));
        }
        return res;
    }
    let mut resolved: Vec<GlobalShaderPass> = Vec::new();
    let mut i: usize = 0;
    while i < passes.len()
        invariant
            i <= passes@.len(),
            resolved@.len() == i,
            forall|j: int|
                0 <= j < i ==> #[trigger] resolved@[j]@ == resolve_pass_spec(passes@[j], mode@),
        decreases passes@.len() - i,
    {
        let pp = &passes[i];
        let m = match &pp.mode {
            Some(m) => m.clone(),
            None => mode.to_owned(),
        };
        resolved.push(GlobalShaderPass { source: clone_opt(&pp.source), path: clone_opt(&pp.path), mode: m });
        i = i + 1;
    }
    assert(resolved@.map_values(|p: GlobalShaderPass| p@) =~= passes@.map_values(
        |p: GlobalShaderPassPart| resolve_pass_spec(p, mode@),
    ));
    resolve_scoped_chain(resolved.as_slice(), expand)
}

/// A region's on-screen rectangle, in millionths of a logical pixel.
#[derive(Debug, Default, Clone, Copy, PartialEq, Eq, Structural)]
pub struct Geometry {
    pub x: i64,
    pub y: i64,
    pub width: i64,
    pub height: i64,
}

/// A region shader as resolved from config.
#[derive(Debug, Clone, PartialEq)]
pub struct RegionShader {
    pub geometry: Geometry,
    pub output: Option<String>,
    pub source: Option<String>,
    pub path: Option<String>,
    pub mode: String,
    pub passes: Vec<GlobalShaderPass>,
}

/// A `region-shader { … }` block as written.
#[derive(Debug, Default, Clone, PartialEq)]
pub struct RegionShaderPart {
    pub geometry: Option<Geometry>,
    pub output: Option<String>,
    pub source: Option<String>,
    pub path: Option<String>,
    pub mode: Option<String>,
    pub passes: Vec<GlobalShaderPassPart>,
}

/// A region shader as plain values.
pub struct RegionShaderView {
    pub geometry: Geometry,
    pub output: Option<Seq<char>>,
    pub source: Option<Seq<char>>,
    pub path: Option<Seq<char>>,
    pub mode: Seq<char>,
    pub passes: Seq<PassView>,
}

impl View for RegionShader {
    type V = RegionShaderView;

    open spec fn view(&self) -> RegionShaderView {
        RegionShaderView {
            geometry: self.geometry,
            output: opt_view(self.output),
            source: opt_view(self.source),
            path: opt_view(self.path),
            mode: self.mode@,
            passes: self.passes@.map_values(|p: GlobalShaderPass| p@),
        }
    }
}

/// The region shader a part resolves to: the geometry defaults to the empty rectangle at the
/// origin, `mode` defaults to `niri`, and each pass without a `mode` takes the region's.
pub open spec fn region_from_part_spec(p: RegionShaderPart) -> RegionShaderView {
    let mode = match p.mode {
        Some(m) => m@,
        None => "niri"@,
    };
    RegionShaderView {
        geometry: match p.geometry {
            Some(g) => g,
            None => Geometry { x: 0, y: 0, width: 0, height: 0 },
        },
        output: opt_view(p.output),
        source: opt_view(p.source),
        path: opt_view(p.path),
        mode,
        passes: p.passes@.map_values(|pp: GlobalShaderPassPart| resolve_pass_spec(pp, mode)),
    }
}

impl RegionShader {
    /// Resolves a config part into a region shader.
    pub fn from_part(p: RegionShaderPart) -> (r: RegionShader)
        ensures
            r@ == region_from_part_spec(p),
    {
        let mode = match &p.mode {
            Some(m) => m.clone(),
            None => "niri".to_owned(),
        };
        let mut passes: Vec<GlobalShaderPass> = Vec::new();
        let mut i: usize = 0;
        while i < p.passes.len()
            invariant
                i <= p.passes@.len(),
                passes@.len() == i,
                forall|j: int|
                    0 <= j < i ==> #[trigger] passes@[j]@ == resolve_pass_spec(p.passes@[j], mode@),
            decreases p.passes@.len() - i,
        {
            let pp = &p.passes[i];
            let m = match &pp.mode {
                Some(m) => m.clone(),
                None => mode.clone(),
            };
            passes.push(
                GlobalShaderPass { source: clone_opt(&pp.source), path: clone_opt(&pp.path), mode: m },
            );
            i = i + 1;
        }
        let geometry = match p.geometry {
            Some(g) => g,
            None => Geometry { x: 0, y: 0, width: 0, height: 0 },
        };
        let r = RegionShader {
            geometry,
            output: clone_opt(&p.output),
            source: clone_opt(&p.source),
            path: clone_opt(&p.path),
            mode,
            passes,
        };
        assert(r@.passes =~= region_from_part_spec(p).passes);
        r
    }

    /// Resolves this region's shader into an ordered `(source, hyprland)` pass list. With no
    /// passes the top-level `source`/`path` becomes a one-pass chain; any pass that cannot be
    /// resolved empties the list, disabling the region.
    pub fn pass_sources<F: Fn(&str) -> Option<String>>(&self, expand: F) -> (r: Vec<(String, bool)>)
        requires
            forall|x: &str| expand.requires((x,)),
        ensures
            self.passes@.len() == 0 ==> single_chain(
                PassView { source: opt_view(self.source), path: opt_view(self.path), mode: self.mode@ },
                expand,
                pairs_view(r@),
            ),
            self.passes@.len() > 0 ==> scoped_chain(self@.passes, expand, pairs_view(r@)),
    {
        if self.passes.len() == 0 {
            let res = match resolve_scoped_leaf(&self.source, &self.path, self.mode.as_str(), &expand) {
                Some(pair) => {
                    let v = vec![pair];
                    v
                },
                None => Vec::new(),
            };
            assert(pairs_view(res@).len() == res@.len());
            if res.len() == 1 {
                assert(pairs_view(res@)[0] == pair_view(res@[0]));
            }
            return res;
        }
        resolve_scoped_chain(self.passes.as_slice(), &expand)
    }
}

} // verus!
