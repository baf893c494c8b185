//! A custom focus-ring or border shader, resolved once per config load and never during
//! rendering, together with the content key its compiled program is cached under.

use std::collections::hash_map::DefaultHasher;
use std::hash::Hasher;

use vstd::prelude::*;
use vstd::std_specs::hash::DefaultHasherAdditionalSpecFns;
use vstd::utf8::encode_utf8;

use crate::global_shader::opt_view;

verus! {

/// A shader body resolved once per config load, never during rendering. The numeric settings
/// are in millionths of a unit.
#[derive(Debug, Clone, PartialEq)]
pub struct DecorationShader {
    /// The shader's source, when it has one.
    pub source: Option<String>,
    /// The program cache key: the hash of `source` (see [`DecorationShader::is_well_formed`]).
    pub key: Option<u64>,
    pub path: Option<String>,
    pub enable: bool,
    pub animated: bool,
    /// Animation speed, in `0..=10`.
    pub speed: i64,
    pub draw_inside: bool,
    /// Padding, in `0..=1024`.
    pub padding: i64,
    pub light: Option<DecorationLight>,
}

/// Opt-in light spill derived from the shader's actual premultiplied output. The numeric
/// settings are in millionths of a unit.
#[derive(Debug, Clone, Copy, PartialEq, Eq, Structural)]
pub struct DecorationLight {
    pub enable: bool,
    /// In `1..=256`.
    pub spread: i64,
    /// In `0..=4`.
    pub intensity: i64,
    /// In `0..=1`.
    pub threshold: i64,
}

/// The settings of a `shader { … }` block as written, with `path` already made absolute.
#[derive(Debug, Clone, PartialEq)]
pub struct DecorationShaderPart {
    pub source: Option<String>,
    pub path: Option<String>,
    pub enable: bool,
    pub animated: bool,
    pub speed: i64,
    pub padding: i64,
    pub draw_inside: bool,
    pub light: Option<DecorationLight>,
}

/// One million: the scale of the numeric settings.
pub const MICROS: i64 = 1_000_000;

/// Whether a setting in millionths lies in the inclusive range `lo..=hi` of whole units.
pub open spec fn within(v: i64, lo: int, hi: int) -> bool {
    lo * MICROS <= v <= hi * MICROS
}

/// Whether every numeric setting of a block lies in its range.
pub open spec fn settings_in_range(part: DecorationShaderPart) -> bool {
    &&& within(part.speed, 0, 10)
    &&& within(part.padding, 0, 1024)
    &&& match part.light {
        Some(l) => within(l.spread, 1, 256) && within(l.intensity, 0, 4) && within(l.threshold, 0, 1),
        None => true,
    }
}

/// The source a block resolves to: the file's contents when an enabled block's path could be
/// read, else the inline source.
pub open spec fn resolved_source(part: DecorationShaderPart, read: Option<String>) -> Option<
    Seq<char>,
> {
    if part.path is Some && part.enable && read is Some {
        opt_view(read)
    } else {
        opt_view(part.source)
    }
}

/// The cache key a block resolves to: the key of its resolved source.
pub open spec fn resolved_key(part: DecorationShaderPart, read: Option<String>) -> Option<u64> {
    match resolved_source(part, read) {
        Some(t) => Some(source_key(t)),
        None => None,
    }
}

/// Two blocks that agree on their source, path and `enable` resolve to the same cache key,
/// whatever their other settings (animation, speed, padding, lighting): editing those never
/// recompiles the shader.
pub proof fn lemma_key_ignores_tuning(
    a: DecorationShaderPart,
    b: DecorationShaderPart,
    read: Option<String>,
)
    requires
        opt_view(a.source) == opt_view(b.source),
        a.path is Some <==> b.path is Some,
        a.enable == b.enable,
    ensures
        resolved_key(a, read) == resolved_key(b, read),
{
}

fn in_range(v: i64, lo: i64, hi: i64) -> (b: bool)
    requires
        0 <= lo <= hi <= 1024,
    ensures
        b == within(v, lo as int, hi as int),
{
    lo * MICROS <= v && v <= hi * MICROS
}

/// Why a `shader { … }` block is refused.
#[derive(Debug, Clone, Copy, PartialEq, Eq, Structural)]
pub enum DecorationShaderError {
    /// A numeric setting lies outside its range.
    OutOfRange,
    /// Both `source` and `path` were given.
    SourceAndPath,
    /// The shader is enabled but has neither `source` nor `path`.
    MissingSource,
}

/// The cache key of a shader source: the hash of the string, as `Hash for str` writes it.
pub open spec fn source_key(source: Seq<char>) -> u64 {
    DefaultHasher::spec_finish(seq![encode_utf8(source), seq![0xffu8]])
}

fn hash_source(source: &String) -> (k: u64)
    ensures
        k == source_key(source@),
{
    let mut h = DefaultHasher::new();
    let terminator: [u8; 1] = [0xffu8];
    h.write(source.as_str().as_bytes());
    h.write(terminator.as_slice());
    assert(terminator@ =~= seq![0xffu8]);
    assert(h@ =~= seq![encode_utf8(source@), seq![0xffu8]]);
    h.finish()
}

impl DecorationShader {
    /// The key is the hash of the source, and there is a key exactly when there is a source.
    pub open spec fn is_well_formed(&self) -> bool {
        match self.source {
            Some(t) => self.key == Some(source_key(t@)),
            None => self.key is None,
        }
    }

    pub fn source(&self) -> (r: Option<&str>)
        ensures
            match r {
                Some(s) => self.source matches Some(t) && t@ == s@,
                None => self.source is None,
            },
    {
        match &self.source {
            Some(s) => Some(s.as_str()),
            None => None,
        }
    }

    /// The program cache key, absent when the shader is disabled or has no source.
    pub fn key(&self) -> (r: Option<u64>)
        ensures
            r == (if self.enable {
                self.key
            } else {
                None
            }),
    {
        if self.enable {
            self.key
        } else {
            None
        }
    }

    /// Resolves a `shader { … }` block. `read` is the contents of the block's file when the
    /// shader is enabled and the file could be read. A readable path supplies the source; an
    /// unreadable one leaves the shader without a source, so the configured colours are used.
    /// The cache key is the hash of the source alone, so no other setting recompiles the shader.
    pub fn resolve(part: DecorationShaderPart, read: Option<String>) -> (r: Result<
        DecorationShader,
        DecorationShaderError,
    >)
        ensures
            !settings_in_range(part) <==> r == Err::<DecorationShader, _>(
                DecorationShaderError::OutOfRange,
            ),
            (settings_in_range(part) && part.source is Some && part.path is Some) <==> r == Err::<
                DecorationShader,
                _,
            >(DecorationShaderError::SourceAndPath),
            (settings_in_range(part) && !(part.source is Some && part.path is Some) && part.enable
                && part.source is None && part.path is None) <==> r == Err::<DecorationShader, _>(
                DecorationShaderError::MissingSource,
            ),
            r matches Ok(s) ==> {
                &&& opt_view(s.source) == resolved_source(part, read)
                &&& s.key == resolved_key(part, read)
                &&& s.is_well_formed()
                &&& s.path == part.path
                &&& s.enable == part.enable
                &&& s.animated == part.animated
                &&& s.speed == part.speed
                &&& s.draw_inside == part.draw_inside
                &&& s.padding == part.padding
                &&& s.light == part.light
            },
    {
        let light_ok = match &part.light {
            Some(l) => in_range(l.spread, 1, 256) && in_range(l.intensity, 0, 4) && in_range(
                l.threshold,
                0,
                1,
            ),
            None => true,
        };
        if !(in_range(part.speed, 0, 10) && in_range(part.padding, 0, 1024) && light_ok) {
            return Err(DecorationShaderError::OutOfRange);
        }
        if part.source.is_some() && part.path.is_some() {
            return Err(DecorationShaderError::SourceAndPath);
        }
        if part.enable && part.source.is_none() && part.path.is_none() {
            return Err(DecorationShaderError::MissingSource);
        }
        let DecorationShaderPart {
            source,
            path,
            enable,
            animated,
            speed,
            padding,
            draw_inside,
            light,
        } = part;
        let src = if path.is_some() && enable && read.is_some() {
            read
        } else {
            source
        };
        let key = match &src {
            Some(s) => Some(hash_source(s)),
            None => None,
        };
        Ok(DecorationShader { source: src, key, path, enable, animated, speed, draw_inside, padding, light })
    }
}

} // verus!
