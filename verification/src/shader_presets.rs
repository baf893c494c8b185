//! Built-in colour filters, so accessibility users do not have to write GLSL.
//!
//! Every generated source is niri-dialect, premultiplied-alpha safe and static (no animation
//! uniforms), which keeps a colour filter free of continuous-redraw cost. Numeric settings are
//! held in millionths and printed with six fractional digits.

use vstd::prelude::*;
use vstd::string::StringExecFns;

use crate::global_shader::{animating_spec, scan_spec};
use crate::text::{contains_seq, decimal, fixed6, occurs_at, padded_digits, push_fixed6, str_eq};

verus! {

/// Names of the built-in presets, in documentation order.
pub const BUILTIN_PRESET_NAMES: [&'static str; 4] = ["grayscale", "invert", "saturation", "temperature"];

/// The colour temperature a `temperature` preset uses when no `kelvin` is given, in millionths
/// of a kelvin.
pub const DEFAULT_KELVIN_MICROS: u64 = 4_000_000_000;

/// The saturation factor a `saturation` preset uses when no `amount` is given, in millionths.
pub const DEFAULT_AMOUNT_MICROS: u64 = 1_500_000;

/// Per-channel colour multipliers, in millionths.
#[derive(Debug, Default, Clone, Copy, PartialEq, Eq, Structural)]
pub struct ChannelScale {
    pub r: u64,
    pub g: u64,
    pub b: u64,
}

/// A reference to a shader preset by name, with the properties the named preset may use:
/// `amount` for `saturation`, `kelvin` for `temperature`.
///
/// `amount` and `kelvin` are in millionths. `kelvin_rgb` holds the per-channel multipliers (in
/// millionths) of the black-body colour at [`temperature_kelvin`] of this reference, normalised
/// so that 6500 K is `(1, 1, 1)`; whoever builds the reference fills it in from the kelvin value.
#[derive(Debug, Default, Clone, PartialEq)]
pub struct ShaderPresetRefPart {
    pub name: String,
    pub amount: Option<u64>,
    pub kelvin: Option<u64>,
    pub kelvin_rgb: ChannelScale,
}

/// The colour temperature a reference asks for, in millionths of a kelvin.
pub open spec fn temperature_kelvin_spec(r: ShaderPresetRefPart) -> u64 {
    match r.kelvin {
        Some(k) => k,
        None => DEFAULT_KELVIN_MICROS,
    }
}

/// The colour temperature a `temperature` reference asks for: its `kelvin`, or 4000 K.
pub fn temperature_kelvin(r: &ShaderPresetRefPart) -> (k: u64)
    ensures
        k == temperature_kelvin_spec(*r),
{
    match r.kelvin {
        Some(k) => k,
        None => DEFAULT_KELVIN_MICROS,
    }
}

/// Whether a name is one of the built-in presets.
pub open spec fn is_builtin_name(name: Seq<char>) -> bool {
    name == "grayscale"@ || name == "invert"@ || name == "saturation"@ || name == "temperature"@
}

/// The properties a reference to a built-in preset gives but the preset ignores, as
/// `(amount, kelvin)`: only `saturation` uses `amount` and only `temperature` uses `kelvin`.
/// A reference to an unknown name reports nothing.
pub open spec fn unused_spec(r: ShaderPresetRefPart) -> (bool, bool) {
    (
        is_builtin_name(r.name@) && r.amount is Some && r.name@ != "saturation"@,
        is_builtin_name(r.name@) && r.kelvin is Some && r.name@ != "temperature"@,
    )
}

/// Which given properties the referenced built-in preset ignores, `(amount, kelvin)`, so that a
/// typo can be reported rather than silently ignored.
pub fn unused_properties(r: &ShaderPresetRefPart) -> (u: (bool, bool))
    ensures
        u == unused_spec(*r),
{
    let name = r.name.as_str();
    let saturation = str_eq(name, "saturation");
    let temperature = str_eq(name, "temperature");
    let builtin = str_eq(name, "grayscale") || str_eq(name, "invert") || saturation || temperature;
    proof {
        reveal_strlit("saturation");
        reveal_strlit("temperature");
    }
    (builtin && r.amount.is_some() && !saturation, builtin && r.kelvin.is_some() && !temperature)
}

/// The opening shared by every built-in: sample the screen at the current coordinate.
pub open spec fn head_spec() -> Seq<char> {
    "vec4 global_color(vec3 niri_coord) { vec4 c = tex2D_screen(niri_coord.xy); "@
}

/// Rec.709 luma of the sampled colour.
pub open spec fn luma_spec() -> Seq<char> {
    "float l = dot(c.rgb, vec3(0.2126, 0.7152, 0.0722)); "@
}

pub open spec fn grayscale_spec() -> Seq<char> {
    head_spec() + luma_spec() + "return vec4(vec3(l), c.a); }"@
}

pub open spec fn invert_spec() -> Seq<char> {
    head_spec() + "return vec4(c.a - c.rgb, c.a); }"@
}

pub open spec fn saturation_spec(amount: u64) -> Seq<char> {
    head_spec() + luma_spec() + "return vec4(clamp(mix(vec3(l), c.rgb, "@ + fixed6(amount as nat)
        + "), 0.0, c.a), c.a); }"@
}

pub open spec fn temperature_spec(rgb: ChannelScale) -> Seq<char> {
    head_spec() + "return vec4(c.rgb * vec3("@ + fixed6(rgb.r as nat) + ", "@ + fixed6(
        rgb.g as nat,
    ) + ", "@ + fixed6(rgb.b as nat) + "), c.a); }"@
}

/// The GLSL of the built-in a reference names, or `None` for a name that is not a built-in.
pub open spec fn builtin_source_spec(r: ShaderPresetRefPart) -> Option<Seq<char>> {
    if r.name@ == "grayscale"@ {
        Some(grayscale_spec())
    } else if r.name@ == "invert"@ {
        Some(invert_spec())
    } else if r.name@ == "saturation"@ {
        Some(
            saturation_spec(
                match r.amount {
                    Some(a) => a,
                    None => DEFAULT_AMOUNT_MICROS,
                },
            ),
        )
    } else if r.name@ == "temperature"@ {
        Some(temperature_spec(r.kelvin_rgb))
    } else {
        None
    }
}

/// Generate the GLSL for a built-in preset, or `None` if `r.name` is not a built-in.
pub fn builtin_preset_source(r: &ShaderPresetRefPart) -> (res: Option<String>)
    ensures
        match res {
            Some(s) => builtin_source_spec(*r) == Some(s@),
            None => builtin_source_spec(*r) is None,
        },
{
    let name = r.name.as_str();
    if str_eq(name, "grayscale") {
        let mut s = String::new();
        s.append("vec4 global_color(vec3 niri_coord) { vec4 c = tex2D_screen(niri_coord.xy); ");
        s.append("float l = dot(c.rgb, vec3(0.2126, 0.7152, 0.0722)); ");
        s.append("return vec4(vec3(l), c.a); }");
        assert(s@ =~= grayscale_spec());
        Some(s)
    } else if str_eq(name, "invert") {
        let mut s = String::new();
        s.append("vec4 global_color(vec3 niri_coord) { vec4 c = tex2D_screen(niri_coord.xy); ");
        s.append("return vec4(c.a - c.rgb, c.a); }");
        assert(s@ =~= invert_spec());
        Some(s)
    } else if str_eq(name, "saturation") {
        let amount = match r.amount {
            Some(a) => a,
            None => DEFAULT_AMOUNT_MICROS,
        };
        let mut s = String::new();
        s.append("vec4 global_color(vec3 niri_coord) { vec4 c = tex2D_screen(niri_coord.xy); ");
        s.append("float l = dot(c.rgb, vec3(0.2126, 0.7152, 0.0722)); ");
        s.append("return vec4(clamp(mix(vec3(l), c.rgb, ");
        push_fixed6(&mut s, amount);
        s.append("), 0.0, c.a), c.a); }");
        assert(s@ =~= saturation_spec(amount));
        Some(s)
    } else if str_eq(name, "temperature") {
        let kr = r.kelvin_rgb.r;
        let kg = r.kelvin_rgb.g;
        let kb = r.kelvin_rgb.b;
        let mut s = String::new();
        s.append("vec4 global_color(vec3 niri_coord) { vec4 c = tex2D_screen(niri_coord.xy); ");
        s.append("return vec4(c.rgb * vec3(");
        push_fixed6(&mut s, kr);
        s.append(", ");
        push_fixed6(&mut s, kg);
        s.append(", ");
        push_fixed6(&mut s, kb);
        s.append("), c.a); }");
        assert(s@ =~= temperature_spec(r.kelvin_rgb));
        Some(s)
    } else {
        None
    }
}


/// Every `_` in `s` is followed by `c` or `s`.
pub open spec fn underscores_lead_c_or_s(s: Seq<char>) -> bool {
    forall|i: int|
        0 <= i < s.len() && #[trigger] s[i] == '_' ==> i + 1 < s.len() && (s[i + 1] == 'c' || s[i
            + 1] == 's')
}

/// `s` holds no `_`.
pub open spec fn no_underscore(s: Seq<char>) -> bool {
    forall|i: int| 0 <= i < s.len() ==> #[trigger] s[i] != '_'
}

proof fn lemma_concat_keeps_underscores(a: Seq<char>, b: Seq<char>)
    requires
        underscores_lead_c_or_s(a),
        underscores_lead_c_or_s(b),
        a.len() == 0 || a.last() != '_',
    ensures
        underscores_lead_c_or_s(a + b),
{
    let ab = a + b;
    assert forall|i: int| 0 <= i < ab.len() && #[trigger] ab[i] == '_' implies i + 1 < ab.len() && (
    ab[i + 1] == 'c' || ab[i + 1] == 's') by {
        if i < a.len() {
            assert(a[i] == '_');
            assert(i != a.len() - 1);
            assert(ab[i + 1] == a[i + 1]);
        } else {
            assert(b[i - a.len()] == '_');
            assert(ab[i + 1] == b[i + 1 - a.len()]);
        }
    }
}

proof fn lemma_decimal_has_no_underscore(n: nat)
    ensures
        no_underscore(decimal(n)),
    decreases n,
{
    if n >= 10 {
        lemma_decimal_has_no_underscore(n / 10);
        let d = decimal(n);
        assert forall|i: int| 0 <= i < d.len() implies #[trigger] d[i] != '_' by {
            if i < d.len() - 1 {
                assert(d[i] == decimal(n / 10)[i]);
            }
        }
    }
}

proof fn lemma_padded_has_no_underscore(n: nat, w: nat)
    ensures
        no_underscore(padded_digits(n, w)),
    decreases w,
{
    if w > 0 {
        lemma_padded_has_no_underscore(n / 10, (w - 1) as nat);
        let d = padded_digits(n, w);
        assert forall|i: int| 0 <= i < d.len() implies #[trigger] d[i] != '_' by {
            if i < d.len() - 1 {
                assert(d[i] == padded_digits(n / 10, (w - 1) as nat)[i]);
            }
        }
    }
}

proof fn lemma_fixed6_has_no_underscore(m: nat)
    ensures
        no_underscore(fixed6(m)),
        fixed6(m).len() > 0,
{
    lemma_decimal_has_no_underscore(m / 1_000_000);
    lemma_padded_has_no_underscore(m % 1_000_000, 6);
    let a = decimal(m / 1_000_000);
    let b = seq!['.'];
    let c = padded_digits(m % 1_000_000, 6);
    let f = fixed6(m);
    assert(f == a + b + c);
    assert forall|i: int| 0 <= i < f.len() implies #[trigger] f[i] != '_' by {
        if i < a.len() {
            assert(f[i] == a[i]);
        } else if i < a.len() + 1 {
            assert(f[i] == '.');
        } else {
            assert(f[i] == c[i - a.len() - 1]);
        }
    }
}

/// A text whose underscores all lead `c` or `s` cannot contain a needle that has an underscore
/// leading another character.
proof fn lemma_underscores_exclude(text: Seq<char>, needle: Seq<char>, j: int)
    requires
        underscores_lead_c_or_s(text),
        0 <= j,
        j + 1 < needle.len(),
        needle[j] == '_',
        needle[j + 1] != 'c',
        needle[j + 1] != 's',
    ensures
        !contains_seq(text, needle),
{
    if contains_seq(text, needle) {
        let i = choose|i: int| occurs_at(text, needle, i);
        assert(text.subrange(i, i + needle.len())[j] == needle[j]);
        assert(text[i + j] == '_');
        assert(text.subrange(i, i + needle.len())[j + 1] == needle[j + 1]);
    }
}

proof fn lemma_static_text(text: Seq<char>)
    requires
        underscores_lead_c_or_s(text),
    ensures
        !animating_spec(scan_spec(text, false)),
{
    reveal_strlit("niri_time");
    reveal_strlit("niri_prev");
    reveal_strlit("tex2D_prev");
    reveal_strlit("niri_screen_prev");
    reveal_strlit("tex2D_screen_prev");
    reveal_strlit("global_buffer");
    reveal_strlit("niri_buffer");
    reveal_strlit("tex2D_buffer");
    lemma_underscores_exclude(text, "niri_time"@, 4);
    lemma_underscores_exclude(text, "niri_prev"@, 4);
    lemma_underscores_exclude(text, "tex2D_prev"@, 5);
    lemma_underscores_exclude(text, "niri_screen_prev"@, 11);
    lemma_underscores_exclude(text, "tex2D_screen_prev"@, 12);
    lemma_underscores_exclude(text, "global_buffer"@, 6);
    lemma_underscores_exclude(text, "niri_buffer"@, 4);
    lemma_underscores_exclude(text, "tex2D_buffer"@, 5);
}

proof fn lemma_number_piece(prefix: Seq<char>, m: nat, suffix: Seq<char>)
    requires
        underscores_lead_c_or_s(prefix),
        underscores_lead_c_or_s(suffix),
        prefix.len() == 0 || prefix.last() != '_',
    ensures
        underscores_lead_c_or_s(prefix + fixed6(m) + suffix),
{
    lemma_fixed6_has_no_underscore(m);
    let f = fixed6(m);
    assert(underscores_lead_c_or_s(f));
    lemma_concat_keeps_underscores(prefix, f);
    assert((prefix + f).last() == f.last());
    lemma_concat_keeps_underscores(prefix + f, suffix);
}

/// Every built-in filter is static: its source references no time or feedback input, so a colour
/// filter never forces continuous redraws.
pub proof fn lemma_builtins_are_static(r: ShaderPresetRefPart)
    ensures
        builtin_source_spec(r) matches Some(s) ==> !animating_spec(scan_spec(s, false)),
{
    reveal_strlit("vec4 global_color(vec3 niri_coord) { vec4 c = tex2D_screen(niri_coord.xy); ");
    reveal_strlit("float l = dot(c.rgb, vec3(0.2126, 0.7152, 0.0722)); ");
    reveal_strlit("return vec4(vec3(l), c.a); }");
    reveal_strlit("return vec4(c.a - c.rgb, c.a); }");
    reveal_strlit("return vec4(clamp(mix(vec3(l), c.rgb, ");
    reveal_strlit("), 0.0, c.a), c.a); }");
    reveal_strlit("return vec4(c.rgb * vec3(");
    reveal_strlit(", ");
    reveal_strlit("), c.a); }");
    let head = head_spec();
    let luma = luma_spec();
    assert(underscores_lead_c_or_s(head));
    assert(underscores_lead_c_or_s(luma));
    assert(head.last() != '_');
    assert(luma.last() != '_');
    lemma_concat_keeps_underscores(head, luma);
    assert((head + luma).last() == luma.last());
    match builtin_source_spec(r) {
        Some(s) => {
            if r.name@ == "grayscale"@ {
                let tail = "return vec4(vec3(l), c.a); }"@;
                assert(underscores_lead_c_or_s(tail));
                lemma_concat_keeps_underscores(head + luma, tail);
                lemma_static_text(s);
            } else if r.name@ == "invert"@ {
                let tail = "return vec4(c.a - c.rgb, c.a); }"@;
                assert(underscores_lead_c_or_s(tail));
                lemma_concat_keeps_underscores(head, tail);
                lemma_static_text(s);
            } else if r.name@ == "saturation"@ {
                let amount = match r.amount {
                    Some(a) => a,
                    None => DEFAULT_AMOUNT_MICROS,
                };
                let open = "return vec4(clamp(mix(vec3(l), c.rgb, "@;
                let close = "), 0.0, c.a), c.a); }"@;
                assert(underscores_lead_c_or_s(open));
                assert(underscores_lead_c_or_s(close));
                assert(open.last() != '_');
                lemma_concat_keeps_underscores(head + luma, open);
                assert((head + luma + open).last() == open.last());
                lemma_number_piece(head + luma + open, amount as nat, close);
                assert(s == head + luma + open + fixed6(amount as nat) + close);
                lemma_static_text(s);
            } else {
                let rgb = r.kelvin_rgb;
                let open = "return vec4(c.rgb * vec3("@;
                let comma = ", "@;
                let close = "), c.a); }"@;
                assert(underscores_lead_c_or_s(open));
                assert(underscores_lead_c_or_s(comma));
                assert(underscores_lead_c_or_s(close));
                assert(open.last() != '_');
                assert(comma.last() != '_');
                lemma_concat_keeps_underscores(head, open);
                assert((head + open).last() == open.last());
                lemma_number_piece(head + open, rgb.r as nat, comma);
                let p1 = head + open + fixed6(rgb.r as nat) + comma;
                assert(p1.last() == comma.last());
                lemma_number_piece(p1, rgb.g as nat, comma);
                let p2 = p1 + fixed6(rgb.g as nat) + comma;
                assert(p2.last() == comma.last());
                lemma_number_piece(p2, rgb.b as nat, close);
                assert(s == p2 + fixed6(rgb.b as nat) + close);
                lemma_static_text(s);
            }
        },
        None => {},
    }
}

} // verus!
