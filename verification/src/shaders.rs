//! Identities of compiled shader programs: which program a render pass asks for, and the stable
//! cache key of a resolved scoped pass list.

use std::collections::hash_map::DefaultHasher;
use std::hash::Hasher;

use vstd::prelude::*;
use vstd::std_specs::hash::DefaultHasherAdditionalSpecFns;
use vstd::utf8::encode_utf8;

use crate::region_shader::pairs_view;

verus! {

#[derive(Debug, Clone, Copy, PartialEq, Eq, Structural)]
pub enum ProgramType {
    Border,
    DecorationLight,
    Decoration(u64),
    Panel,
    Shadow,
    Resize,
    DragPhysics,
    Close,
    Open,
    Global,
    GlobalBuffer,
    GlobalPass(usize),
    GlobalPassBuffer(usize),
    Scoped(u64, usize),
}

/// The writes that hashing one pass makes: the UTF-8 bytes of the source followed by the `0xff`
/// string terminator, then the flag as one byte.
pub open spec fn pass_writes(p: (String, bool)) -> Seq<Seq<u8>> {
    seq![encode_utf8(p.0@), seq![0xffu8], seq![if p.1 { 1u8 } else { 0u8 }]]
}

/// The writes that hashing a pass list makes, pass after pass.
pub open spec fn scoped_key_writes(passes: Seq<(String, bool)>) -> Seq<Seq<u8>>
    decreases passes.len(),
{
    if passes.len() == 0 {
        Seq::empty()
    } else {
        scoped_key_writes(passes.drop_last()) + pass_writes(passes.last())
    }
}

/// The key depends on the pass list's text and flags alone: pass lists that read the same
/// hash the same, so identical chains share one compiled program.
pub proof fn lemma_scoped_key_depends_only_on_text(a: Seq<(String, bool)>, b: Seq<(String, bool)>)
    requires
        pairs_view(a) == pairs_view(b),
    ensures
        scoped_key_writes(a) == scoped_key_writes(b),
    decreases a.len(),
{
    assert(a.len() == pairs_view(a).len());
    assert(b.len() == pairs_view(b).len());
    if a.len() > 0 {
        assert(pairs_view(a.drop_last()) =~= pairs_view(a).drop_last());
        assert(pairs_view(b.drop_last()) =~= pairs_view(b).drop_last());
        lemma_scoped_key_depends_only_on_text(a.drop_last(), b.drop_last());
        assert(pairs_view(a)[a.len() - 1] == pairs_view(b)[b.len() - 1]);
        assert(pass_writes(a.last()) == pass_writes(b.last()));
    }
}

/// Stable hash of a resolved pass list: the cache key for a scoped shader chain. A function of
/// the source strings and dialect flags alone.
pub fn scoped_key(passes: &[(String, bool)]) -> (k: u64)
    ensures
        k == DefaultHasher::spec_finish(scoped_key_writes(passes@)),
{
    let mut h = DefaultHasher::new();
    let mut i: usize = 0;
    while i < passes.len()
        invariant
            i <= passes@.len(),
            h@ == scoped_key_writes(passes@.take(i as int)),
        decreases passes@.len() - i,
    {
        let (src, hypr) = &passes[i];
        let terminator: [u8; 1] = [0xffu8];
        let flag: [u8; 1] = [if *hypr { 1u8 } else { 0u8 }];
        let ghost before = h@;
        let bytes = src.as_str().as_bytes();
        assert(bytes@ == encode_utf8(passes@[i as int].0@));
        h.write(bytes);
        h.write(terminator.as_slice());
        h.write(flag.as_slice());
        proof {
            assert(passes@.take(i + 1).drop_last() =~= passes@.take(i as int));
            assert(passes@.take(i + 1).last() == passes@[i as int]);
            assert(terminator@ =~= seq![0xffu8]);
            assert(flag@ =~= seq![if passes@[i as int].1 { 1u8 } else { 0u8 }]);
            assert(h@ =~= before + pass_writes(passes@[i as int]));
            assert(h@ =~= scoped_key_writes(passes@.take(i + 1)));
        }
        i = i + 1;
    }
    assert(passes@.take(passes@.len() as int) =~= passes@);
    h.finish()
}

} // verus!
