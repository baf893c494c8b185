//! Per-output shaders: the `output { shader { … } }` rule and the `output-shaders` preset block.
//!
//! Both bodies share one shape: inline `source`, a `path`, a `preset` reference, or a `pass`
//! chain of those. A `preset` at the top level of an `output { shader { … } }` body may name a
//! user preset; a `preset` inside a `pass` may only name a built-in. That asymmetry is what makes
//! preset recursion structurally impossible: a user preset body can only ever reach built-ins.

use vstd::prelude::*;

use crate::global_shader::{opt_view, PassView};
use crate::region_shader::{expands_to, 
    opt_pair_view, pair_view, pairs_view, resolve_scoped_leaf, scoped_leaf,
};
use crate::shader_presets::{builtin_preset_source, builtin_source_spec, ShaderPresetRefPart};
use crate::text::{is_blank, str_eq};

verus! {

/// One pass of an output shader.
#[derive(Debug, Default, Clone, PartialEq)]
pub struct OutputShaderPassPart {
    pub source: Option<String>,
    pub path: Option<String>,
    pub mode: Option<String>,
    pub preset: Option<ShaderPresetRefPart>,
}

/// The body of an `output { shader { … } }` block.
#[derive(Debug, Default, Clone, PartialEq)]
pub struct OutputShaderPart {
    pub source: Option<String>,
    pub path: Option<String>,
    pub mode: Option<String>,
    pub preset: Option<ShaderPresetRefPart>,
    pub passes: Vec<OutputShaderPassPart>,
}

/// One `output-shaders` block; presets from all blocks accumulate in config order.
#[derive(Debug, Default, Clone, PartialEq)]
pub struct OutputShadersPart {
    pub presets: Vec<OutputShaderPreset>,
}

/// A named preset with the same body shape as an `output { shader { … } }` block.
#[derive(Debug, Default, Clone, PartialEq)]
pub struct OutputShaderPreset {
    pub name: String,
    pub source: Option<String>,
    pub path: Option<String>,
    pub mode: Option<String>,
    pub preset: Option<ShaderPresetRefPart>,
    pub passes: Vec<OutputShaderPassPart>,
}

/// One leaf (a pass, or a whole body without passes) may resolve to `out`. Setting more than one
/// of `source`, `path` and `preset` is unresolvable; a preset resolves to its built-in source in
/// the niri dialect, whatever `mode` says; otherwise it resolves as a scoped leaf.
pub open spec fn output_leaf<F: Fn(&str) -> Option<String>>(
    source: Option<String>,
    path: Option<String>,
    mode: Seq<char>,
    preset: Option<ShaderPresetRefPart>,
    expand: F,
    out: Option<(Seq<char>, bool)>,
) -> bool {
    let set = (if source is Some { 1int } else { 0int }) + (if path is Some { 1int } else { 0int })
        + (if preset is Some { 1int } else { 0int });
    if set > 1 {
        out is None
    } else {
        match preset {
            Some(r) => match builtin_source_spec(r) {
                Some(s) => out == Some((s, false)),
                None => out is None,
            },
            None => scoped_leaf(
                PassView { source: opt_view(source), path: opt_view(path), mode },
                expand,
                out,
            ),
        }
    }
}

/// How a single leaf resolves, case by case: unless exactly one of `source`, `path` and
/// `preset` is set it is unresolvable; a preset gives its built-in source in the niri dialect
/// whatever `mode` says; an inline source gives itself unless it is blank; a path gives what
/// `expand` returned for it; the dialect of a source or path is Hyprland exactly when `mode` is
/// `hyprland`.
pub proof fn lemma_output_leaf_cases<F: Fn(&str) -> Option<String>>(
    source: Option<String>,
    path: Option<String>,
    mode: Seq<char>,
    preset: Option<ShaderPresetRefPart>,
    expand: F,
    out: Option<(Seq<char>, bool)>,
)
    requires
        output_leaf(source, path, mode, preset, expand, out),
    ensures
        (if source is Some { 1int } else { 0int }) + (if path is Some { 1int } else { 0int }) + (
        if preset is Some { 1int } else { 0int }) != 1 ==> out is None,
        source is None && path is None ==> match preset {
            Some(r) => out == match builtin_source_spec(r) {
                Some(s) => Some((s, false)),
                None => None::<(Seq<char>, bool)>,
            },
            None => true,
        },
        path is None && preset is None ==> match source {
            Some(s) => out == if is_blank(s@) {
                None
            } else {
                Some((s@, mode == "hyprland"@))
            },
            None => true,
        },
        source is None && preset is None ==> match path {
            Some(p) => expands_to(
                expand,
                p@,
                match out {
                    Some(o) => Some(o.0),
                    None => None,
                },
            ) && match out {
                Some(o) => o.1 == (mode == "hyprland"@),
                None => true,
            },
            None => true,
        },
{
}

/// The mode a pass runs in: its own, or the body's.
pub open spec fn pass_mode(p: OutputShaderPassPart, default_mode: Seq<char>) -> Seq<char> {
    match p.mode {
        Some(m) => m@,
        None => default_mode,
    }
}

/// The `i`-th pass may resolve to `out`.
pub open spec fn pass_leaf<F: Fn(&str) -> Option<String>>(
    passes: Seq<OutputShaderPassPart>,
    i: int,
    default_mode: Seq<char>,
    expand: F,
    out: Option<(Seq<char>, bool)>,
) -> bool {
    output_leaf(
        passes[i].source,
        passes[i].path,
        pass_mode(passes[i], default_mode),
        passes[i].preset,
        expand,
        out,
    )
}

/// A pass chain may resolve to `out`: every pass resolves, in order, or some pass is
/// unresolvable and the chain is dropped.
pub open spec fn output_chain<F: Fn(&str) -> Option<String>>(
    passes: Seq<OutputShaderPassPart>,
    default_mode: Seq<char>,
    expand: F,
    out: Seq<(Seq<char>, bool)>,
) -> bool {
    ||| out.len() == passes.len() && forall|i: int|
        0 <= i < passes.len() ==> #[trigger] pass_leaf(passes, i, default_mode, expand, Some(out[i]))
    ||| out.len() == 0 && exists|k: int|
        0 <= k < passes.len() && #[trigger] pass_leaf(passes, k, default_mode, expand, None)
}

/// An output shader chain never resolves partially: either every pass resolves or none is kept.
pub proof fn lemma_output_chain_all_or_nothing<F: Fn(&str) -> Option<String>>(
    passes: Seq<OutputShaderPassPart>,
    default_mode: Seq<char>,
    expand: F,
    out: Seq<(Seq<char>, bool)>,
)
    requires
        output_chain(passes, default_mode, expand, out),
    ensures
        out.len() == 0 || out.len() == passes.len(),
{
}

/// `i` is the first preset named `name`.
pub open spec fn first_named(presets: Seq<OutputShaderPreset>, name: Seq<char>, i: int) -> bool {
    &&& 0 <= i < presets.len()
    &&& presets[i].name@ == name
    &&& forall|j: int| 0 <= j < i ==> #[trigger] presets[j].name@ != name
}

/// The mode of a body: its own, or the niri dialect.
pub open spec fn body_mode(mode: Option<String>) -> Seq<char> {
    match mode {
        Some(m) => m@,
        None => "niri"@,
    }
}

/// A shader body, consulting no user presets, may resolve to `out`: a pass chain wins over the
/// top-level settings, which otherwise form a one-pass chain.
pub open spec fn plain_body<F: Fn(&str) -> Option<String>>(
    source: Option<String>,
    path: Option<String>,
    mode: Option<String>,
    preset: Option<ShaderPresetRefPart>,
    passes: Seq<OutputShaderPassPart>,
    expand: F,
    out: Seq<(Seq<char>, bool)>,
) -> bool {
    let dm = body_mode(mode);
    if passes.len() > 0 {
        output_chain(passes, dm, expand, out)
    } else {
        ||| out.len() == 1 && output_leaf(source, path, dm, preset, expand, Some(out[0]))
        ||| out.len() == 0 && output_leaf(source, path, dm, preset, expand, None)
    }
}

/// A shader body may resolve to `out`. Without a pass chain, a top-level `preset` that names a
/// user preset (the first of that name) resolves as that preset's body, which itself consults no
/// user presets; user presets are only given at the top level of an output's own body.
pub open spec fn body_resolves<F: Fn(&str) -> Option<String>>(
    source: Option<String>,
    path: Option<String>,
    mode: Option<String>,
    preset: Option<ShaderPresetRefPart>,
    passes: Seq<OutputShaderPassPart>,
    user_presets: Option<Seq<OutputShaderPreset>>,
    expand: F,
    out: Seq<(Seq<char>, bool)>,
) -> bool {
    if passes.len() == 0 && preset is Some && user_presets is Some && exists|i: int|
        first_named(user_presets->0, preset->0.name@, i) {
        let ps = user_presets->0;
        let i = choose|i: int| first_named(ps, preset->0.name@, i);
        plain_body(ps[i].source, ps[i].path, ps[i].mode, ps[i].preset, ps[i].passes@, expand, out)
    } else {
        plain_body(source, path, mode, preset, passes, expand, out)
    }
}

/// A top-level `preset` naming a user preset resolves exactly as that preset's own body would
/// (the first preset of that name shadows a built-in of the same name); one naming no user preset
/// and standing alone resolves to its built-in source, or to nothing for an unknown name.
pub proof fn lemma_user_preset_shadows_builtin<F: Fn(&str) -> Option<String>>(
    mode: Option<String>,
    r: ShaderPresetRefPart,
    user_presets: Seq<OutputShaderPreset>,
    expand: F,
    out: Seq<(Seq<char>, bool)>,
)
    ensures
        forall|i: int|
            first_named(user_presets, r.name@, i) ==> (body_resolves(
                None,
                None,
                mode,
                Some(r),
                Seq::empty(),
                Some(user_presets),
                expand,
                out,
            ) <==> body_resolves(
                user_presets[i].source,
                user_presets[i].path,
                user_presets[i].mode,
                user_presets[i].preset,
                user_presets[i].passes@,
                None,
                expand,
                out,
            )),
        (forall|i: int| !first_named(user_presets, r.name@, i)) ==> (body_resolves(
            None,
            None,
            mode,
            Some(r),
            Seq::empty(),
            Some(user_presets),
            expand,
            out,
        ) <==> out == match builtin_source_spec(r) {
            Some(t) => seq![(t, false)],
            None => Seq::<(Seq<char>, bool)>::empty(),
        }),
{
    assert forall|i: int| first_named(user_presets, r.name@, i) implies (body_resolves(
        None,
        None,
        mode,
        Some(r),
        Seq::empty(),
        Some(user_presets),
        expand,
        out,
    ) <==> body_resolves(
        user_presets[i].source,
        user_presets[i].path,
        user_presets[i].mode,
        user_presets[i].preset,
        user_presets[i].passes@,
        None,
        expand,
        out,
    )) by {
        let c = choose|c: int| first_named(user_presets, r.name@, c);
        assert(c == i) by {
            if c < i {
                assert(user_presets[c].name@ != r.name@);
            } else if c > i {
                assert(user_presets[i].name@ != r.name@);
            }
        }
    }
    if forall|i: int| !first_named(user_presets, r.name@, i) {
        assert(!exists|i: int| first_named(user_presets, r.name@, i));
        match builtin_source_spec(r) {
            Some(t) => {
                if out.len() == 1 && out[0] == (t, false) {
                    assert(out =~= seq![(t, false)]);
                }
                if out == seq![(t, false)] {
                    assert(out.len() == 1 && out[0] == (t, false));
                }
            },
            None => {
                if out.len() == 0 {
                    assert(out =~= Seq::<(Seq<char>, bool)>::empty());
                }
            },
        }
    }
}

/// With a pass chain, the top-level `source`, `path` and `preset` and the user presets are
/// ignored: the body resolves as its passes alone would, each pass `preset` consulting only the
/// built-ins.
pub proof fn lemma_passes_ignore_top_level<F: Fn(&str) -> Option<String>>(
    source: Option<String>,
    path: Option<String>,
    mode: Option<String>,
    preset: Option<ShaderPresetRefPart>,
    passes: Seq<OutputShaderPassPart>,
    user_presets: Option<Seq<OutputShaderPreset>>,
    expand: F,
    out: Seq<(Seq<char>, bool)>,
)
    requires
        passes.len() > 0,
    ensures
        body_resolves(source, path, mode, preset, passes, user_presets, expand, out)
            <==> body_resolves(None, None, mode, None, passes, None, expand, out),
        body_resolves(source, path, mode, preset, passes, user_presets, expand, out)
            <==> output_chain(passes, body_mode(mode), expand, out),
{
}

/// Resolve one leaf spec to `(source, hyprland)`; `None` means unresolvable, which disables the
/// whole chain. Only built-in presets are consulted here.
fn resolve_leaf<F: Fn(&str) -> Option<String>>(
    source: &Option<String>,
    path: &Option<String>,
    mode: &str,
    preset: &Option<ShaderPresetRefPart>,
    expand: &F,
) -> (r: Option<(String, bool)>)
    requires
        forall|x: &str| expand.requires((x,)),
    ensures
        output_leaf(*source, *path, mode@, *preset, *expand, opt_pair_view(r)),
{
    let set: u8 = (if source.is_some() { 1u8 } else { 0u8 }) + (if path.is_some() { 1u8 } else {
        0u8
    }) + (if preset.is_some() { 1u8 } else { 0u8 });
    if set > 1 {
        return None;
    }
    if let Some(r) = preset {
        return match builtin_preset_source(r) {
            Some(src) => Some((src, false)),
            None => None,
        };
    }
    resolve_scoped_leaf(source, path, mode, expand)
}

/// Shared body resolution. `user_presets` is `Some` only for a top-level `output { shader { … } }`
/// body, and `None` inside a preset body, which is what forbids user-preset recursion.
fn resolve_body<F: Fn(&str) -> Option<String>>(
    source: &Option<String>,
    path: &Option<String>,
    mode: &Option<String>,
    preset: &Option<ShaderPresetRefPart>,
    passes: &[OutputShaderPassPart],
    user_presets: Option<&[OutputShaderPreset]>,
    expand: &F,
) -> (r: Vec<(String, bool)>)
    requires
        forall|x: &str| expand.requires((x,)),
    ensures
        body_resolves(
            *source,
            *path,
            *mode,
            *preset,
            passes@,
            match user_presets {
                Some(ps) => Some(ps@),
                None => None,
            },
            *expand,
            pairs_view(r@),
        ),
    decreases (if user_presets is Some {
        1int
    } else {
        0int
    }),
{
    let ghost dm = body_mode(*mode);
    let default_mode: &str = match mode {
        Some(m) => m.as_str(),
        None => "niri",
    };
    if passes.len() > 0 {
        let mut out: Vec<(String, bool)> = Vec::new();
        let mut i: usize = 0;
        while i < passes.len()
            invariant
                i <= passes@.len(),
                default_mode@ == dm,
                dm == body_mode(*mode),
                forall|x: &str| expand.requires((x,)),
                out@.len() == i,
                forall|j: int|
                    0 <= j < i ==> #[trigger] pass_leaf(
                        passes@,
                        j,
                        dm,
                        *expand,
                        Some(pair_view(out@[j])),
                    ),
            decreases passes@.len() - i,
        {
            let p = &passes[i];
            let this_mode: &str = match &p.mode {
                Some(m) => m.as_str(),
                None => default_mode,
            };
            assert(this_mode@ == pass_mode(passes@[i as int], dm));
            match resolve_leaf(&p.source, &p.path, this_mode, &p.preset, expand) {
                Some(pair) => {
                    out.push(pair);
                },
                None => {
                    assert(pass_leaf(passes@, i as int, dm, *expand, None));
                    let empty: Vec<(String, bool)> = Vec::new();
                    assert(pairs_view(empty@) =~= Seq::<(Seq<char>, bool)>::empty());
                    return empty;
                },
            }
            i = i + 1;
        }
        assert forall|j: int| 0 <= j < passes@.len() implies #[trigger] pass_leaf(
            passes@,
            j,
            dm,
            *expand,
            Some(pairs_view(out@)[j]),
        ) by {
            assert(pairs_view(out@)[j] == pair_view(out@[j]));
        }
        return out;
    }
    if let (Some(r), Some(presets)) = (preset, user_presets) {
        let mut i: usize = 0;
        while i < presets.len()
            invariant
                i <= presets@.len(),
                user_presets == Some(presets),
                passes@.len() == 0,
                *preset == Some(*r),
                forall|x: &str| expand.requires((x,)),
                forall|j: int| 0 <= j < i ==> #[trigger] presets@[j].name@ != r.name@,
            decreases presets@.len() - i,
        {
            if str_eq(presets[i].name.as_str(), r.name.as_str()) {
                let user = &presets[i];
                assert(first_named(presets@, r.name@, i as int));
                let res = resolve_body(
                    &user.source,
                    &user.path,
                    &user.mode,
                    &user.preset,
                    user.passes.as_slice(),
                    None,
                    expand,
                );
                proof {
                    let k = choose|k: int| first_named(presets@, r.name@, k);
                    assert(k == i) by {
                        if k < i {
                            assert(presets@[k].name@ != r.name@);
                        } else if k > i {
                            assert(presets@[i as int].name@ != r.name@);
                        }
                    }
                }
                return res;
            }
            i = i + 1;
        }
        assert(!exists|k: int| first_named(presets@, r.name@, k));
    }
    let res = match resolve_leaf(source, path, default_mode, preset, expand) {
        Some(pair) => {
            let v = vec![pair];
            v
        },
        None => Vec::new(),
    };
    assert(pairs_view(res@).len() == res@.len());
    if res.len() == 1 {
        assert(pairs_view(res@)[0] == pair_view(res@[0]));
    }
    res
}

/// A `preset` reference inside an output's shader body: the top-level one, one of its passes',
/// or, for a top-level reference that names a user preset, that preset's own top-level or pass
/// reference (`(preset index, pass index)`).
#[derive(Debug, Clone, Copy, PartialEq, Eq, Structural)]
pub enum PresetRef {
    Top,
    Pass(usize),
    UserTop(usize),
    UserPass(usize, usize),
}

/// A leaf consults the built-in preset table: it names a preset and sets nothing else.
pub open spec fn consults_builtin(
    source: Option<String>,
    path: Option<String>,
    preset: Option<ShaderPresetRefPart>,
) -> bool {
    preset is Some && source is None && path is None
}

/// The passes among the first `n` that consult the built-in table, in order; `user` is the index
/// of the user preset they belong to, if any.
pub open spec fn pass_refs(passes: Seq<OutputShaderPassPart>, user: Option<usize>, n: int) -> Seq<
    PresetRef,
>
    decreases n,
{
    if n <= 0 {
        Seq::empty()
    } else {
        let prev = pass_refs(passes, user, n - 1);
        let p = passes[n - 1];
        if consults_builtin(p.source, p.path, p.preset) {
            prev.push(
                match user {
                    Some(i) => PresetRef::UserPass(i, (n - 1) as usize),
                    None => PresetRef::Pass((n - 1) as usize),
                },
            )
        } else {
            prev
        }
    }
}

/// The preset references resolving an output's body consults the built-in table for, in order:
/// the passes' when there are passes; otherwise those of the user preset a top-level reference
/// names (the first of that name), or the top-level reference itself. Resolution stops at the
/// first leaf that does not resolve, so only the references before it are reached.
pub open spec fn body_refs(part: OutputShaderPart, user_presets: Seq<OutputShaderPreset>) -> Seq<PresetRef> {
    if part.passes@.len() > 0 {
        pass_refs(part.passes@, None, part.passes@.len() as int)
    } else if part.preset is Some && exists|i: int| first_named(user_presets, part.preset->0.name@, i) {
        let i = choose|i: int| first_named(user_presets, part.preset->0.name@, i);
        let u = user_presets[i];
        if u.passes@.len() > 0 {
            pass_refs(u.passes@, Some(i as usize), u.passes@.len() as int)
        } else if consults_builtin(u.source, u.path, u.preset) {
            seq![PresetRef::UserTop(i as usize)]
        } else {
            Seq::empty()
        }
    } else if consults_builtin(part.source, part.path, part.preset) {
        seq![PresetRef::Top]
    } else {
        Seq::empty()
    }
}

fn pass_refs_exec(passes: &[OutputShaderPassPart], user: Option<usize>) -> (r: Vec<PresetRef>)
    ensures
        r@ == pass_refs(passes@, user, passes@.len() as int),
{
    let mut r: Vec<PresetRef> = Vec::new();
    let mut j: usize = 0;
    while j < passes.len()
        invariant
            j <= passes@.len(),
            r@ == pass_refs(passes@, user, j as int),
        decreases passes@.len() - j,
    {
        let p = &passes[j];
        if p.preset.is_some() && p.source.is_none() && p.path.is_none() {
            r.push(
                match user {
                    Some(i) => PresetRef::UserPass(i, j),
                    None => PresetRef::Pass(j),
                },
            );
        }
        j = j + 1;
    }
    r
}

fn first_preset_named(presets: &[OutputShaderPreset], name: &str) -> (r: Option<usize>)
    ensures
        match r {
            Some(i) => first_named(presets@, name@, i as int),
            None => forall|i: int| !first_named(presets@, name@, i),
        },
{
    let mut i: usize = 0;
    while i < presets.len()
        invariant
            i <= presets@.len(),
            forall|j: int| 0 <= j < i ==> #[trigger] presets@[j].name@ != name@,
        decreases presets@.len() - i,
    {
        if str_eq(presets[i].name.as_str(), name) {
            return Some(i);
        }
        i = i + 1;
    }
    None
}

impl OutputShaderPart {
    /// The preset references resolving this body consults the built-in table for (see
    /// [`body_refs`]), so that properties a built-in ignores can be reported.
    pub fn builtin_preset_refs(&self, user_presets: &[OutputShaderPreset]) -> (r: Vec<PresetRef>)
        ensures
            r@ == body_refs(*self, user_presets@),
    {
        if self.passes.len() > 0 {
            return pass_refs_exec(self.passes.as_slice(), None);
        }
        if let Some(r) = &self.preset {
            if let Some(i) = first_preset_named(user_presets, r.name.as_str()) {
                proof {
                    let c = choose|c: int| first_named(user_presets@, r.name@, c);
                    assert(c == i) by {
                        if c < i {
                            assert(user_presets@[c].name@ != r.name@);
                        } else if c > i {
                            assert(user_presets@[i as int].name@ != r.name@);
                        }
                    }
                }
                let u = &user_presets[i];
                if u.passes.len() > 0 {
                    return pass_refs_exec(u.passes.as_slice(), Some(i));
                }
                if u.preset.is_some() && u.source.is_none() && u.path.is_none() {
                    return vec![PresetRef::UserTop(i)];
                }
                return Vec::new();
            }
        }
        if self.preset.is_some() && self.source.is_none() && self.path.is_none() {
            return vec![PresetRef::Top];
        }
        Vec::new()
    }
}

impl OutputShaderPreset {
    /// Resolve this preset's body. Built-ins only: a preset body may not name another user
    /// preset.
    pub fn pass_sources<F: Fn(&str) -> Option<String>>(&self, expand: &F) -> (r: Vec<(String, bool)>)
        requires
            forall|x: &str| expand.requires((x,)),
        ensures
            body_resolves(
                self.source,
                self.path,
                self.mode,
                self.preset,
                self.passes@,
                None,
                *expand,
                pairs_view(r@),
            ),
    {
        resolve_body(
            &self.source,
            &self.path,
            &self.mode,
            &self.preset,
            self.passes.as_slice(),
            None,
            expand,
        )
    }
}

impl OutputShaderPart {
    /// Resolve this output's shader body. A top-level `preset` resolves against `user_presets`
    /// first, then the built-in table.
    pub fn pass_sources<F: Fn(&str) -> Option<String>>(
        &self,
        user_presets: &[OutputShaderPreset],
        expand: &F,
    ) -> (r: Vec<(String, bool)>)
        requires
            forall|x: &str| expand.requires((x,)),
        ensures
            body_resolves(
                self.source,
                self.path,
                self.mode,
                self.preset,
                self.passes@,
                Some(user_presets@),
                *expand,
                pairs_view(r@),
            ),
    {
        resolve_body(
            &self.source,
            &self.path,
            &self.mode,
            &self.preset,
            self.passes.as_slice(),
            Some(user_presets),
            expand,
        )
    }
}

} // verus!
