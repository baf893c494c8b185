//! Installing the global shader's pass chain and keeping its per-pass feedback.
//!
//! The programs themselves (`P`) and the textures a pass keeps from the last frame (`T`) are the
//! renderer's; this module decides which passes get a dedicated-buffer program, whether a
//! compiled chain is installed, and when the per-pass feedback is reset.

use vstd::prelude::*;

use crate::text::{contains_seq, str_contains};

verus! {

/// A pass gets a dedicated `global_buffer` program when it is in the niri dialect and its source
/// mentions `global_buffer`.
pub open spec fn needs_buffer_spec(src: Seq<char>, hyprland: bool) -> bool {
    !hyprland && contains_seq(src, "global_buffer"@)
}

/// Whether a pass gets a dedicated `global_buffer` program.
pub fn needs_buffer_program(src: &str, hyprland: bool) -> (b: bool)
    ensures
        b == needs_buffer_spec(src@, hyprland),
{
    !hyprland && str_contains(src, "global_buffer")
}

/// The flattened programs of optional ones, in order.
pub open spec fn present<P>(v: Seq<Option<P>>) -> Seq<P>
    decreases v.len(),
{
    if v.len() == 0 {
        Seq::empty()
    } else {
        match v.last() {
            Some(p) => present(v.drop_last()).push(p),
            None => present(v.drop_last()),
        }
    }
}

/// What installing a chain gives: the display programs and dedicated-buffer programs to install,
/// and the programs to destroy.
pub struct ChainInstall<P> {
    pub display: Vec<P>,
    pub buffers: Vec<Option<P>>,
    pub discard: Vec<P>,
}

fn push_present<P>(out: &mut Vec<P>, opts: Vec<Option<P>>)
    ensures
        final(out)@ == old(out)@ + present(opts@),
{
    let ghost base = out@;
    let mut rest = opts;
    let ghost all = rest@;
    let mut i: usize = 0;
    let n = rest.len();
    while i < n
        invariant
            n == all.len(),
            i <= n,
            rest@ == all.subrange(i as int, n as int),
            out@ == base + present(all.subrange(0, i as int)),
        decreases n - i,
    {
        let b = rest.remove(0);
        proof {
            assert(all.subrange(0, i + 1).drop_last() =~= all.subrange(0, i as int));
            assert(all.subrange(0, i + 1).last() == b);
            assert(rest@ =~= all.subrange(i + 1, n as int));
        }
        match b {
            Some(p) => out.push(p),
            None => {},
        }
        i = i + 1;
    }
    assert(all.subrange(0, n as int) =~= all);
}

fn push_all<P>(out: &mut Vec<P>, items: Vec<P>)
    ensures
        final(out)@ == old(out)@ + items@,
{
    let ghost base = out@;
    let mut rest = items;
    let ghost all = rest@;
    let mut i: usize = 0;
    let n = rest.len();
    while i < n
        invariant
            n == all.len(),
            i <= n,
            rest@ == all.subrange(i as int, n as int),
            out@ == base + all.subrange(0, i as int),
        decreases n - i,
    {
        let b = rest.remove(0);
        proof {
            assert(rest@ =~= all.subrange(i + 1, n as int));
        }
        out.push(b);
        proof {
            assert(out@ =~= base + all.subrange(0, i + 1));
        }
        i = i + 1;
    }
    assert(all.subrange(0, n as int) =~= all);
}

/// `compile`, called with a string whose characters are `src` and the dialect flag, may return
/// `out`.
pub open spec fn display_compiles_to<P, D: Fn(&str, bool) -> Option<P>>(
    compile: D,
    src: Seq<char>,
    hyprland: bool,
    out: Option<P>,
) -> bool {
    exists|x: &str| x@ == src && #[trigger] call_ensures(compile, (x, hyprland), out)
}

/// `compile`, called with a string whose characters are `src`, may return `out`.
pub open spec fn buffer_compiles_to<P, B: Fn(&str) -> Option<P>>(
    compile: B,
    src: Seq<char>,
    out: Option<P>,
) -> bool {
    exists|x: &str| x@ == src && #[trigger] call_ensures(compile, (x,), out)
}

/// The first `k` passes compiled to the display programs `d`, and each got the dedicated-buffer
/// program in `b`: what compiling its source gave when it needs one, none otherwise.
pub open spec fn compiled_prefix<P, D: Fn(&str, bool) -> Option<P>, B: Fn(&str) -> Option<P>>(
    passes: Seq<(String, bool)>,
    d: Seq<P>,
    b: Seq<Option<P>>,
    k: int,
    compile_display: D,
    compile_buffer: B,
) -> bool {
    &&& d.len() == k
    &&& b.len() == k
    &&& forall|i: int|
        0 <= i < k ==> display_compiles_to(compile_display, passes[i].0@, passes[i].1, Some(#[trigger] d[i]))
    &&& forall|i: int|
        0 <= i < k ==> if needs_buffer_spec(passes[i].0@, passes[i].1) {
            buffer_compiles_to(compile_buffer, passes[i].0@, #[trigger] b[i])
        } else {
            b[i] is None
        }
}

/// What installing `passes` may leave: either every display program compiled, each pass holding
/// what compiling it gave, and `discard` is the old chain's programs; or the chain is empty, some
/// pass `k` failed to compile after the passes before it compiled, and `discard` is the old
/// chain's programs followed by everything compiled for the failed install.
pub open spec fn chain_install_outcome<P, D: Fn(&str, bool) -> Option<P>, B: Fn(&str) -> Option<P>>(
    old_programs: Seq<P>,
    passes: Seq<(String, bool)>,
    compile_display: D,
    compile_buffer: B,
    display: Seq<P>,
    buffers: Seq<Option<P>>,
    discard: Seq<P>,
) -> bool {
    ||| {
        &&& compiled_prefix(passes, display, buffers, passes.len() as int, compile_display, compile_buffer)
        &&& discard == old_programs
    }
    ||| {
        &&& display.len() == 0
        &&& buffers.len() == 0
        &&& exists|d: Seq<P>, b: Seq<Option<P>>, k: int|
            #![trigger compiled_prefix(passes, d, b, k, compile_display, compile_buffer)]
            0 <= k < passes.len() && compiled_prefix(passes, d, b, k, compile_display, compile_buffer)
                && display_compiles_to(compile_display, passes[k].0@, passes[k].1, None)
                && old_programs + d + present(b) == discard
    }
}

/// No partial chain ever runs: after an install the display chain is empty or has one program
/// per pass, each what compiling that pass gave; an empty pass list installs nothing; an empty
/// chain for a non-empty pass list means some pass failed to compile; and the old chain's
/// programs are always handed back, first, for destruction.
pub proof fn lemma_no_partial_chain<P, D: Fn(&str, bool) -> Option<P>, B: Fn(&str) -> Option<P>>(
    old_programs: Seq<P>,
    passes: Seq<(String, bool)>,
    compile_display: D,
    compile_buffer: B,
    display: Seq<P>,
    buffers: Seq<Option<P>>,
    discard: Seq<P>,
)
    requires
        chain_install_outcome(old_programs, passes, compile_display, compile_buffer, display, buffers, discard),
    ensures
        display.len() == 0 || display.len() == passes.len(),
        buffers.len() == display.len(),
        passes.len() == 0 ==> display.len() == 0,
        display.len() == passes.len() ==> forall|i: int|
            0 <= i < passes.len() ==> display_compiles_to(
                compile_display,
                passes[i].0@,
                passes[i].1,
                Some(#[trigger] display[i]),
            ),
        display.len() == 0 && passes.len() > 0 ==> exists|k: int|
            0 <= k < passes.len() && #[trigger] display_compiles_to(
                compile_display,
                passes[k].0@,
                passes[k].1,
                None,
            ),
        old_programs.len() <= discard.len(),
        discard.subrange(0, old_programs.len() as int) == old_programs,
{
    if !compiled_prefix(passes, display, buffers, passes.len() as int, compile_display, compile_buffer)
        || discard != old_programs {
        let (d, b, k) = choose|d: Seq<P>, b: Seq<Option<P>>, k: int|
            #![trigger compiled_prefix(passes, d, b, k, compile_display, compile_buffer)]
            0 <= k < passes.len() && compiled_prefix(passes, d, b, k, compile_display, compile_buffer)
                && display_compiles_to(compile_display, passes[k].0@, passes[k].1, None)
                && old_programs + d + present(b) == discard;
        assert(discard.subrange(0, old_programs.len() as int) =~= old_programs);
    } else {
        assert(discard.subrange(0, old_programs.len() as int) =~= old_programs);
    }
}

/// Installs a new global pass chain in place of the old one. Each pass's display program is
/// compiled in order, and, for a pass that needs one, its dedicated-buffer program (a buffer that
/// fails to compile leaves that pass without one). If every display program compiles, the chain
/// is installed whole; at the first that fails, nothing is installed and everything compiled for
/// it is destroyed, so a partial chain never runs. The old chain's programs are always destroyed:
/// `discard` holds them first, then whatever a failed install compiled.
#[verifier::loop_isolation(false)]
pub fn set_global_passes<P, D: Fn(&str, bool) -> Option<P>, B: Fn(&str) -> Option<P>>(
    old_display: Vec<P>,
    old_buffers: Vec<Option<P>>,
    passes: &[(String, bool)],
    compile_display: &D,
    compile_buffer: &B,
) -> (r: ChainInstall<P>)
    requires
        forall|x: &str, h: bool| compile_display.requires((x, h)),
        forall|x: &str| compile_buffer.requires((x,)),
    ensures
        chain_install_outcome(
            old_display@ + present(old_buffers@),
            passes@,
            *compile_display,
            *compile_buffer,
            r.display@,
            r.buffers@,
            r.discard@,
        ),
{
    let mut discard = old_display;
    push_present(&mut discard, old_buffers);
    let ghost previous = discard@;
    let mut display: Vec<P> = Vec::new();
    let mut buffers: Vec<Option<P>> = Vec::new();
    let mut i: usize = 0;
    while i < passes.len()
        invariant
            i <= passes@.len(),
            forall|x: &str, h: bool| compile_display.requires((x, h)),
            forall|x: &str| compile_buffer.requires((x,)),
            compiled_prefix(passes@, display@, buffers@, i as int, *compile_display, *compile_buffer),
            discard@ == previous,
        decreases passes@.len() - i,
    {
        let src = passes[i].0.as_str();
        let hyprland = passes[i].1;
        let shown = compile_display(src, hyprland);
        match shown {
            Some(program) => {
                assert(display_compiles_to(*compile_display, passes@[i as int].0@, hyprland, Some(program)));
                let buffer = if needs_buffer_program(src, hyprland) {
                    let b = compile_buffer(src);
                    assert(buffer_compiles_to(*compile_buffer, passes@[i as int].0@, b));
                    b
                } else {
                    None
                };
                let ghost d0 = display@;
                let ghost b0 = buffers@;
                display.push(program);
                buffers.push(buffer);
                proof {
                    assert forall|j: int| 0 <= j < i + 1 implies display_compiles_to(
                        *compile_display,
                        passes@[j].0@,
                        passes@[j].1,
                        Some(#[trigger] display@[j]),
                    ) by {
                        if j < i {
                            assert(display@[j] == d0[j]);
                        }
                    }
                    assert forall|j: int| 0 <= j < i + 1 implies if needs_buffer_spec(
                        passes@[j].0@,
                        passes@[j].1,
                    ) {
                        buffer_compiles_to(*compile_buffer, passes@[j].0@, #[trigger] buffers@[j])
                    } else {
                        buffers@[j] is None
                    } by {
                        if j < i {
                            assert(buffers@[j] == b0[j]);
                        }
                    }
                }
            },
            None => {
                assert(display_compiles_to(*compile_display, passes@[i as int].0@, hyprland, None));
                let ghost old_programs = discard@;
                let ghost d = display@;
                let ghost b = buffers@;
                push_all(&mut discard, display);
                push_present(&mut discard, buffers);
                assert(old_programs + d + present(b) == discard@);
                assert(compiled_prefix(passes@, d, b, i as int, *compile_display, *compile_buffer));
                return ChainInstall { display: Vec::new(), buffers: Vec::new(), discard };
            },
        }
        i = i + 1;
    }
    ChainInstall { display, buffers, discard }
}

/// The per-pass state of the global chain: each pass's output and dedicated buffer from the last
/// frame (`T`, fed back as `niri_prev` and `niri_buffer`), the sinks this frame's outputs and
/// buffers are written to (`S`), and each pass's display and dedicated-buffer offscreens (`O`).
pub struct GlobalShaderChain<T, S, O> {
    pub prev: Vec<Option<T>>,
    pub result: Vec<S>,
    pub pass_offscreen: Vec<O>,
    pub buffer: Vec<O>,
    pub buffer_prev: Vec<Option<T>>,
    pub buffer_result: Vec<S>,
}

/// `v` holds `n` values, each one that `make` may return.
pub open spec fn fresh<A, F: Fn() -> A>(v: Seq<A>, n: nat, make: F) -> bool {
    &&& v.len() == n
    &&& forall|i: int| 0 <= i < n ==> call_ensures(make, (), #[trigger] v[i])
}

fn fresh_vec<A, F: Fn() -> A>(n: usize, make: &F) -> (v: Vec<A>)
    requires
        make.requires(()),
    ensures
        fresh(v@, n as nat, *make),
{
    let mut v: Vec<A> = Vec::new();
    let mut i: usize = 0;
    while i < n
        invariant
            i <= n,
            make.requires(()),
            fresh(v@, i as nat, *make),
        decreases n - i,
    {
        let a = make();
        v.push(a);
        i = i + 1;
    }
    v
}

impl<T, S, O> GlobalShaderChain<T, S, O> {
    /// Sizes every per-pass list to a chain of `n` passes. An unchanged length (of `prev`) keeps
    /// everything; a changed one means the chain itself changed, so all per-pass state is reset:
    /// no feedback, fresh sinks from `new_sink` and fresh offscreens from `new_offscreen`.
    /// Returns whether it was reset.
    pub fn resize<FS: Fn() -> S, FO: Fn() -> O>(
        &mut self,
        n: usize,
        new_sink: &FS,
        new_offscreen: &FO,
    ) -> (reset: bool)
        requires
            new_sink.requires(()),
            new_offscreen.requires(()),
        ensures
            reset == (old(self).prev@.len() != n),
            !reset ==> *final(self) == *old(self),
            reset ==> {
                &&& final(self).prev@ == Seq::new(n as nat, |i: int| None::<T>)
                &&& final(self).buffer_prev@ == Seq::new(n as nat, |i: int| None::<T>)
                &&& fresh(final(self).result@, n as nat, *new_sink)
                &&& fresh(final(self).buffer_result@, n as nat, *new_sink)
                &&& fresh(final(self).pass_offscreen@, n as nat, *new_offscreen)
                &&& fresh(final(self).buffer@, n as nat, *new_offscreen)
            },
    {
        if self.prev.len() == n {
            return false;
        }
        let mut prev: Vec<Option<T>> = Vec::new();
        let mut buffer_prev: Vec<Option<T>> = Vec::new();
        let mut i: usize = 0;
        while i < n
            invariant
                i <= n,
                prev@ == Seq::new(i as nat, |j: int| None::<T>),
                buffer_prev@ == Seq::new(i as nat, |j: int| None::<T>),
            decreases n - i,
        {
            prev.push(None);
            buffer_prev.push(None);
            proof {
                assert(prev@ =~= Seq::new((i + 1) as nat, |j: int| None::<T>));
                assert(buffer_prev@ =~= Seq::new((i + 1) as nat, |j: int| None::<T>));
            }
            i = i + 1;
        }
        self.prev = prev;
        self.buffer_prev = buffer_prev;
        self.result = fresh_vec(n, new_sink);
        self.buffer_result = fresh_vec(n, new_sink);
        self.pass_offscreen = fresh_vec(n, new_offscreen);
        self.buffer = fresh_vec(n, new_offscreen);
        true
    }
}

} // verus!
