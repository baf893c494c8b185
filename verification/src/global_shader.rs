//! The full-screen post-process shader: its configuration, how a config part merges into it,
//! which animation inputs a source references, and the redraw decision derived from that.

use vstd::prelude::*;

use crate::text::{contains_seq, str_contains, str_eq};

verus! {

/// A KDL flag node: present means `true` unless an explicit `false` argument is given.
#[derive(Debug, Clone, Copy, PartialEq, Eq)]
pub struct Flag(pub bool);

/// Which animation/feedback inputs a compiled global shader references, derived by scanning the
/// resolved source. A substring match: a token inside a comment still counts, which only costs
/// extra redraws; a uniform that is used must appear by its literal name, so none is missed.
#[derive(Debug, Clone, Copy, PartialEq, Eq, Structural, Default)]
pub struct GlobalShaderCaps {
    pub uses_time: bool,
    pub uses_cursor: bool,
    pub uses_prev: bool,
    pub uses_buffer: bool,
}

/// The capabilities of one source in the given dialect.
pub open spec fn scan_spec(src: Seq<char>, hyprland: bool) -> GlobalShaderCaps {
    if hyprland {
        GlobalShaderCaps {
            uses_time: contains_seq(src, "time"@),
            uses_cursor: false,
            uses_prev: false,
            uses_buffer: false,
        }
    } else {
        GlobalShaderCaps {
            uses_time: contains_seq(src, "niri_time"@),
            uses_cursor: contains_seq(src, "niri_cursor"@),
            uses_prev: contains_seq(src, "niri_prev"@) || contains_seq(src, "tex2D_prev"@)
                || contains_seq(src, "niri_screen_prev"@) || contains_seq(src, "tex2D_screen_prev"@),
            uses_buffer: contains_seq(src, "global_buffer"@) || contains_seq(src, "niri_buffer"@)
                || contains_seq(src, "tex2D_buffer"@),
        }
    }
}

/// The capabilities of the `i`-th pass of a chain.
pub open spec fn pass_caps(passes: Seq<(String, bool)>, i: int) -> GlobalShaderCaps {
    scan_spec(passes[i].0@, passes[i].1)
}

/// The capabilities of a chain: each input is used if some pass uses it.
pub open spec fn chain_caps(passes: Seq<(String, bool)>) -> GlobalShaderCaps {
    GlobalShaderCaps {
        uses_time: exists|i: int| 0 <= i < passes.len() && #[trigger] pass_caps(passes, i).uses_time,
        uses_cursor: exists|i: int|
            0 <= i < passes.len() && #[trigger] pass_caps(passes, i).uses_cursor,
        uses_prev: exists|i: int| 0 <= i < passes.len() && #[trigger] pass_caps(passes, i).uses_prev,
        uses_buffer: exists|i: int|
            0 <= i < passes.len() && #[trigger] pass_caps(passes, i).uses_buffer,
    }
}

/// A shader animates when it depends on time or on a feedback buffer.
pub open spec fn animating_spec(c: GlobalShaderCaps) -> bool {
    c.uses_time || c.uses_prev || c.uses_buffer
}

impl GlobalShaderCaps {
    /// Scans one source. The Hyprland dialect aliases `niri_time` as `time` and has no cursor,
    /// feedback or buffer inputs.
    pub fn scan(src: &str, hyprland: bool) -> (r: Self)
        ensures
            r == scan_spec(src@, hyprland),
    {
        if hyprland {
            GlobalShaderCaps {
                uses_time: str_contains(src, "time"),
                uses_cursor: false,
                uses_prev: false,
                uses_buffer: false,
            }
        } else {
            let uses_time = str_contains(src, "niri_time");
            let uses_cursor = str_contains(src, "niri_cursor");
            let p1 = str_contains(src, "niri_prev");
            let p2 = str_contains(src, "tex2D_prev");
            let p3 = str_contains(src, "niri_screen_prev");
            let p4 = str_contains(src, "tex2D_screen_prev");
            let b1 = str_contains(src, "global_buffer");
            let b2 = str_contains(src, "niri_buffer");
            let b3 = str_contains(src, "tex2D_buffer");
            GlobalShaderCaps {
                uses_time,
                uses_cursor,
                uses_prev: p1 || p2 || p3 || p4,
                uses_buffer: b1 || b2 || b3,
            }
        }
    }

    /// Capabilities of a multi-pass chain: the union over its passes, so the chain animates when
    /// any pass does.
    pub fn scan_chain(passes: &[(String, bool)]) -> (r: Self)
        ensures
            r == chain_caps(passes@),
    {
        let mut acc = GlobalShaderCaps {
            uses_time: false,
            uses_cursor: false,
            uses_prev: false,
            uses_buffer: false,
        };
        let mut i: usize = 0;
        while i < passes.len()
            invariant
                i <= passes@.len(),
                acc.uses_time == exists|j: int|
                    0 <= j < i && #[trigger] pass_caps(passes@, j).uses_time,
                acc.uses_cursor == exists|j: int|
                    0 <= j < i && #[trigger] pass_caps(passes@, j).uses_cursor,
                acc.uses_prev == exists|j: int|
                    0 <= j < i && #[trigger] pass_caps(passes@, j).uses_prev,
                acc.uses_buffer == exists|j: int|
                    0 <= j < i && #[trigger] pass_caps(passes@, j).uses_buffer,
            decreases passes@.len() - i,
        {
            let c = Self::scan(passes[i].0.as_str(), passes[i].1);
            assert(c == pass_caps(passes@, i as int));
            acc = GlobalShaderCaps {
                uses_time: acc.uses_time || c.uses_time,
                uses_cursor: acc.uses_cursor || c.uses_cursor,
                uses_prev: acc.uses_prev || c.uses_prev,
                uses_buffer: acc.uses_buffer || c.uses_buffer,
            };
            i = i + 1;
        }
        acc
    }

    /// Animating shaders depend on time or a feedback buffer, so they must redraw every frame.
    pub fn is_animating(&self) -> (r: bool)
        ensures
            r == animating_spec(*self),
    {
        self.uses_time || self.uses_prev || self.uses_buffer
    }
}

/// A chain animates exactly when one of its passes does.
pub proof fn lemma_chain_animates_iff_some_pass(passes: Seq<(String, bool)>)
    ensures
        animating_spec(chain_caps(passes)) <==> exists|i: int|
            0 <= i < passes.len() && #[trigger] animating_spec(pass_caps(passes, i)),
{
    if animating_spec(chain_caps(passes)) {
        let c = chain_caps(passes);
        if c.uses_time {
            let i = choose|i: int| 0 <= i < passes.len() && #[trigger] pass_caps(passes, i).uses_time;
            assert(animating_spec(pass_caps(passes, i)));
        } else if c.uses_prev {
            let i = choose|i: int| 0 <= i < passes.len() && #[trigger] pass_caps(passes, i).uses_prev;
            assert(animating_spec(pass_caps(passes, i)));
        } else {
            let i = choose|i: int|
                0 <= i < passes.len() && #[trigger] pass_caps(passes, i).uses_buffer;
            assert(animating_spec(pass_caps(passes, i)));
        }
    }
    if exists|i: int| 0 <= i < passes.len() && #[trigger] animating_spec(pass_caps(passes, i)) {
        let i = choose|i: int| 0 <= i < passes.len() && #[trigger] animating_spec(pass_caps(passes, i));
        assert(pass_caps(passes, i).uses_time || pass_caps(passes, i).uses_prev || pass_caps(
            passes,
            i,
        ).uses_buffer);
    }
}

/// Redraw scheduling for the global shader. `Auto` derives the decision from the capabilities;
/// the others force it.
#[derive(Debug, Clone, Copy, PartialEq, Eq, Structural, Default)]
pub enum RedrawMode {
    #[default]
    Auto,
    OnDamage,
    Continuous,
}

/// The mode a `redraw` setting names; anything unrecognised is `Auto`.
pub open spec fn parse_redraw_spec(s: Seq<char>) -> RedrawMode {
    if s == "on-damage"@ {
        RedrawMode::OnDamage
    } else if s == "continuous"@ {
        RedrawMode::Continuous
    } else {
        RedrawMode::Auto
    }
}

/// Whether a mode redraws every frame for shaders with the given capabilities.
pub open spec fn continuous_spec(mode: RedrawMode, caps: GlobalShaderCaps) -> bool {
    match mode {
        RedrawMode::Continuous => true,
        RedrawMode::OnDamage => false,
        RedrawMode::Auto => animating_spec(caps),
    }
}

impl RedrawMode {
    pub fn parse(s: &str) -> (r: Self)
        ensures
            r == parse_redraw_spec(s@),
    {
        if str_eq(s, "on-damage") {
            RedrawMode::OnDamage
        } else if str_eq(s, "continuous") {
            RedrawMode::Continuous
        } else {
            RedrawMode::Auto
        }
    }

    /// Whether to schedule a redraw every frame (animate while idle).
    pub fn wants_continuous_redraw(self, caps: GlobalShaderCaps) -> (r: bool)
        ensures
            r == continuous_spec(self, caps),
    {
        match self {
            RedrawMode::Continuous => true,
            RedrawMode::OnDamage => false,
            RedrawMode::Auto => caps.is_animating(),
        }
    }
}

/// The characters of an optional string.
pub open spec fn opt_view(o: Option<String>) -> Option<Seq<char>> {
    match o {
        Some(s) => Some(s@),
        None => None,
    }
}

/// A copy of an optional string.
pub fn clone_opt(o: &Option<String>) -> (r: Option<String>)
    ensures
        opt_view(r) == opt_view(*o),
{
    match o {
        Some(s) => Some(s.clone()),
        None => None,
    }
}

/// One pass in a multi-pass chain; the resolved form of [`GlobalShaderPassPart`].
#[derive(Debug, Clone, PartialEq, Eq)]
pub struct GlobalShaderPass {
    pub source: Option<String>,
    pub path: Option<String>,
    pub mode: String,
}

/// A pass as plain values.
pub struct PassView {
    pub source: Option<Seq<char>>,
    pub path: Option<Seq<char>>,
    pub mode: Seq<char>,
}

impl View for GlobalShaderPass {
    type V = PassView;

    open spec fn view(&self) -> PassView {
        PassView { source: opt_view(self.source), path: opt_view(self.path), mode: self.mode@ }
    }
}

/// A `pass { … }` block as written; `mode` may be left to the enclosing block.
#[derive(Debug, Default, Clone, PartialEq, Eq)]
pub struct GlobalShaderPassPart {
    pub source: Option<String>,
    pub path: Option<String>,
    pub mode: Option<String>,
}

/// A pass part whose missing `mode` is taken from `default_mode`.
pub open spec fn resolve_pass_spec(p: GlobalShaderPassPart, default_mode: Seq<char>) -> PassView {
    PassView {
        source: opt_view(p.source),
        path: opt_view(p.path),
        mode: match p.mode {
            Some(m) => m@,
            None => default_mode,
        },
    }
}

/// The `global-shader { … }` configuration.
#[derive(Debug, Clone, PartialEq, Eq)]
pub struct GlobalShader {
    pub enable: bool,
    pub source: Option<String>,
    pub path: Option<String>,
    pub mode: String,
    pub reads_cursor: bool,
    /// Effect footprint radius in logical px for cursor-local shaders; `None` = whole output.
    pub cursor_radius: Option<u32>,
    /// Redraw scheduling: "auto" | "on-damage" | "continuous", read by [`RedrawMode::parse`].
    pub redraw: String,
    pub passes: Vec<GlobalShaderPass>,
}

/// The global shader configuration as plain values.
pub struct GlobalShaderView {
    pub enable: bool,
    pub source: Option<Seq<char>>,
    pub path: Option<Seq<char>>,
    pub mode: Seq<char>,
    pub reads_cursor: bool,
    pub cursor_radius: Option<u32>,
    pub redraw: Seq<char>,
    pub passes: Seq<PassView>,
}

impl View for GlobalShader {
    type V = GlobalShaderView;

    open spec fn view(&self) -> GlobalShaderView {
        GlobalShaderView {
            enable: self.enable,
            source: opt_view(self.source),
            path: opt_view(self.path),
            mode: self.mode@,
            reads_cursor: self.reads_cursor,
            cursor_radius: self.cursor_radius,
            redraw: self.redraw@,
            passes: self.passes@.map_values(|p: GlobalShaderPass| p@),
        }
    }
}

/// Whether a reload must rebuild the global shader: any setting that reaches the compiled chain
/// or its scheduling changed. `reads-cursor` alone does not.
pub open spec fn needs_rebuild_spec(old: GlobalShaderView, new: GlobalShaderView) -> bool {
    ||| old.enable != new.enable
    ||| old.source != new.source
    ||| old.path != new.path
    ||| old.mode != new.mode
    ||| old.redraw != new.redraw
    ||| old.cursor_radius != new.cursor_radius
    ||| old.passes != new.passes
}

/// A reload rebuilds the global shader exactly when the old and new settings differ in anything
/// but `reads-cursor`: the same settings never rebuild, and a change of enable, source, path,
/// mode, redraw, cursor radius or any pass always does.
pub proof fn lemma_rebuild_iff_changed(old: GlobalShaderView, new: GlobalShaderView)
    ensures
        needs_rebuild_spec(old, new) <==> old != (GlobalShaderView {
            reads_cursor: old.reads_cursor,
            ..new
        }),
        needs_rebuild_spec(old, new) == needs_rebuild_spec(new, old),
        !needs_rebuild_spec(old, old),
{
    if !needs_rebuild_spec(old, new) {
        assert(old == (GlobalShaderView { reads_cursor: old.reads_cursor, ..new }));
    }
}

fn opt_str_eq(a: &Option<String>, b: &Option<String>) -> (r: bool)
    ensures
        r == (opt_view(*a) == opt_view(*b)),
{
    match (a, b) {
        (Some(x), Some(y)) => str_eq(x.as_str(), y.as_str()),
        (None, None) => true,
        _ => false,
    }
}

fn passes_eq(a: &Vec<GlobalShaderPass>, b: &Vec<GlobalShaderPass>) -> (r: bool)
    ensures
        r == (a@.map_values(|p: GlobalShaderPass| p@) == b@.map_values(|p: GlobalShaderPass| p@)),
{
    let ghost va = a@.map_values(|p: GlobalShaderPass| p@);
    let ghost vb = b@.map_values(|p: GlobalShaderPass| p@);
    if a.len() != b.len() {
        assert(va.len() != vb.len());
        return false;
    }
    let mut i: usize = 0;
    while i < a.len()
        invariant
            a@.len() == b@.len(),
            i <= a@.len(),
            va == a@.map_values(|p: GlobalShaderPass| p@),
            vb == b@.map_values(|p: GlobalShaderPass| p@),
            forall|j: int| 0 <= j < i ==> va[j] == vb[j],
        decreases a@.len() - i,
    {
        let same = opt_str_eq(&a[i].source, &b[i].source) && opt_str_eq(&a[i].path, &b[i].path)
            && str_eq(a[i].mode.as_str(), b[i].mode.as_str());
        if !same {
            assert(va[i as int] != vb[i as int]);
            return false;
        }
        i = i + 1;
    }
    assert(va =~= vb);
    true
}

impl GlobalShader {
    /// Whether a reload from `old` to `self` must rebuild the global shader chain and reset its
    /// per-output state.
    pub fn needs_rebuild(&self, old: &GlobalShader) -> (b: bool)
        ensures
            b == needs_rebuild_spec(old@, self@),
    {
        self.enable != old.enable || !opt_str_eq(&self.source, &old.source) || !opt_str_eq(
            &self.path,
            &old.path,
        ) || !str_eq(self.mode.as_str(), old.mode.as_str()) || !str_eq(
            self.redraw.as_str(),
            old.redraw.as_str(),
        ) || self.cursor_radius != old.cursor_radius || !passes_eq(&self.passes, &old.passes)
    }
}

impl Default for GlobalShader {
    /// Disabled, niri dialect, automatic redraws, no passes.
    fn default() -> (r: Self)
        ensures
            r@ == (GlobalShaderView {
                enable: false,
                source: None,
                path: None,
                mode: "niri"@,
                reads_cursor: false,
                cursor_radius: None,
                redraw: "auto"@,
                passes: Seq::empty(),
            }),
    {
        let r = GlobalShader {
            enable: false,
            source: None,
            path: None,
            mode: "niri".to_owned(),
            reads_cursor: false,
            cursor_radius: None,
            redraw: "auto".to_owned(),
            passes: Vec::new(),
        };
        assert(r@.passes =~= Seq::<PassView>::empty());
        r
    }
}

/// A `global-shader { … }` block as written; every setting is optional and overrides only when
/// present.
#[derive(Debug, Default, Clone, PartialEq, Eq)]
pub struct GlobalShaderPart {
    pub enable: Option<Flag>,
    pub source: Option<String>,
    pub path: Option<String>,
    pub mode: Option<String>,
    pub reads_cursor: Option<Flag>,
    pub cursor_radius: Option<u32>,
    pub redraw: Option<String>,
    pub passes: Vec<GlobalShaderPassPart>,
}

/// Merging applies the settings this trait's implementor receives from a config part.
pub trait MergeWith<T> {
    fn merge_with(&mut self, part: &T);
}

/// The configuration after merging `part` into `cfg`: each present setting replaces the current
/// one, and a non-empty pass list replaces the chain, each pass without a `mode` taking the
/// (already merged) block mode.
pub open spec fn merge_spec(cfg: GlobalShaderView, part: GlobalShaderPart) -> GlobalShaderView {
    let mode = match part.mode {
        Some(m) => m@,
        None => cfg.mode,
    };
    GlobalShaderView {
        enable: match part.enable {
            Some(f) => f.0,
            None => cfg.enable,
        },
        source: if part.source is Some {
            opt_view(part.source)
        } else {
            cfg.source
        },
        path: if part.path is Some {
            opt_view(part.path)
        } else {
            cfg.path
        },
        mode,
        reads_cursor: match part.reads_cursor {
            Some(f) => f.0,
            None => cfg.reads_cursor,
        },
        cursor_radius: if part.cursor_radius is Some {
            part.cursor_radius
        } else {
            cfg.cursor_radius
        },
        redraw: match part.redraw {
            Some(r) => r@,
            None => cfg.redraw,
        },
        passes: if part.passes@.len() == 0 {
            cfg.passes
        } else {
            part.passes@.map_values(|p: GlobalShaderPassPart| resolve_pass_spec(p, mode))
        },
    }
}

/// A part that sets nothing leaves the configuration unchanged.
pub proof fn lemma_merge_empty_part_is_identity(cfg: GlobalShaderView, part: GlobalShaderPart)
    requires
        part.enable is None,
        part.source is None,
        part.path is None,
        part.mode is None,
        part.reads_cursor is None,
        part.cursor_radius is None,
        part.redraw is None,
        part.passes@.len() == 0,
    ensures
        merge_spec(cfg, part) == cfg,
{
}

/// Merging the same part twice is the same as merging it once: every setting a part carries
/// overrides, and nothing accumulates.
pub proof fn lemma_merge_idempotent(cfg: GlobalShaderView, part: GlobalShaderPart)
    ensures
        merge_spec(merge_spec(cfg, part), part) == merge_spec(cfg, part),
{
    let once = merge_spec(cfg, part);
    let twice = merge_spec(once, part);
    assert(twice.passes =~= once.passes);
}

impl MergeWith<GlobalShaderPart> for GlobalShader {
    fn merge_with(&mut self, part: &GlobalShaderPart)
        ensures
            final(self)@ == merge_spec(old(self)@, *part),
    {
        if let Some(f) = &part.enable {
            self.enable = f.0;
        }
        if let Some(f) = &part.reads_cursor {
            self.reads_cursor = f.0;
        }
        if part.source.is_some() {
            self.source = clone_opt(&part.source);
        }
        if part.path.is_some() {
            self.path = clone_opt(&part.path);
        }
        if part.cursor_radius.is_some() {
            self.cursor_radius = part.cursor_radius;
        }
        if let Some(m) = &part.mode {
            self.mode = m.clone();
        }
        if let Some(r) = &part.redraw {
            self.redraw = r.clone();
        }
        if part.passes.len() > 0 {
            let mut passes: Vec<GlobalShaderPass> = Vec::new();
            let mut i: usize = 0;
            while i < part.passes.len()
                invariant
                    i <= part.passes@.len(),
                    passes@.len() == i,
                    forall|j: int|
                        0 <= j < i ==> #[trigger] passes@[j]@ == resolve_pass_spec(
                            part.passes@[j],
                            self.mode@,
                        ),
                decreases part.passes@.len() - i,
            {
                let pp = &part.passes[i];
                let mode = match &pp.mode {
                    Some(m) => m.clone(),
                    None => self.mode.clone(),
                };
                passes.push(
                    GlobalShaderPass {
                        source: clone_opt(&pp.source),
                        path: clone_opt(&pp.path),
                        mode,
                    },
                );
                i = i + 1;
            }
            self.passes = passes;
        }
        proof {
            let want = merge_spec(old(self)@, *part);
            assert(self@.passes =~= want.passes);
        }
    }
}

} // verus!
