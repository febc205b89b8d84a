//! Colors of the graphical view: the level colors, the ANSI palette, and
//! splitting a line with ANSI color sequences (`ESC [ digits-and-semicolons m`)
//! into colored spans.
use vstd::prelude::*;
use crate::config::LogLevelColors;
use crate::models::LogLevel;
use crate::text::{parse_unsigned, split_char, split_on, string_of, unsigned_value, chars_of};

verus! {

/// A color with red, green, blue and alpha components.
#[derive(Clone, Copy, Debug, PartialEq, Eq, Structural)]
pub struct Rgba {
    pub r: u8,
    pub g: u8,
    pub b: u8,
    pub a: u8,
}

/// An opaque color.
pub open spec fn opaque(r: u8, g: u8, b: u8) -> Rgba {
    Rgba { r, g, b, a: 255 }
}

/// The opaque color with the given components.
pub fn rgb(r: u8, g: u8, b: u8) -> (c: Rgba)
    ensures
        c == opaque(r, g, b),
{
    Rgba { r, g, b, a: 255 }
}

/// The color of text with no color code: a light gray.
pub open spec fn default_text_color() -> Rgba {
    opaque(200, 200, 200)
}

/// The opaque color of the three components of `c`.
pub open spec fn color_of(c: Seq<u8>) -> Rgba {
    opaque(c[0], c[1], c[2])
}

/// The color of a level's lines: from the configured colors when given, else
/// the built-in ones; light gray for lines without a level.
pub open spec fn spec_level_color(level: Option<LogLevel>, custom: Option<LogLevelColors>) -> Rgba {
    match (level, custom) {
        (Some(LogLevel::Trace), Some(c)) => color_of(c.trace@),
        (Some(LogLevel::Debug), Some(c)) => color_of(c.debug@),
        (Some(LogLevel::Info), Some(c)) => color_of(c.info@),
        (Some(LogLevel::Warn), Some(c)) => color_of(c.warn@),
        (Some(LogLevel::Error), Some(c)) => color_of(c.error@),
        (Some(LogLevel::Fatal), Some(c)) => color_of(c.fatal@),
        (Some(LogLevel::Trace), None) => opaque(100, 100, 100),
        (Some(LogLevel::Debug), None) => opaque(140, 140, 140),
        (Some(LogLevel::Info), None) => opaque(80, 180, 220),
        (Some(LogLevel::Warn), None) => opaque(220, 180, 50),
        (Some(LogLevel::Error), None) => opaque(220, 80, 80),
        (Some(LogLevel::Fatal), None) => opaque(255, 50, 150),
        (None, _) => default_text_color(),
    }
}

/// The color a level's lines are drawn in.
pub fn log_level_color(level: Option<&LogLevel>, custom_colors: Option<&LogLevelColors>) -> (r: Rgba)
    ensures
        r == spec_level_color(
            match level {
                Some(l) => Some(*l),
                None => None,
            },
            match custom_colors {
                Some(c) => Some(*c),
                None => None,
            },
        ),
{
    match (level, custom_colors) {
        (Some(LogLevel::Trace), Some(c)) => rgb(c.trace[0], c.trace[1], c.trace[2]),
        (Some(LogLevel::Debug), Some(c)) => rgb(c.debug[0], c.debug[1], c.debug[2]),
        (Some(LogLevel::Info), Some(c)) => rgb(c.info[0], c.info[1], c.info[2]),
        (Some(LogLevel::Warn), Some(c)) => rgb(c.warn[0], c.warn[1], c.warn[2]),
        (Some(LogLevel::Error), Some(c)) => rgb(c.error[0], c.error[1], c.error[2]),
        (Some(LogLevel::Fatal), Some(c)) => rgb(c.fatal[0], c.fatal[1], c.fatal[2]),
        (Some(LogLevel::Trace), None) => rgb(100, 100, 100),
        (Some(LogLevel::Debug), None) => rgb(140, 140, 140),
        (Some(LogLevel::Info), None) => rgb(80, 180, 220),
        (Some(LogLevel::Warn), None) => rgb(220, 180, 50),
        (Some(LogLevel::Error), None) => rgb(220, 80, 80),
        (Some(LogLevel::Fatal), None) => rgb(255, 50, 150),
        (None, _) => rgb(200, 200, 200),
    }
}

/// The palette color of an ANSI foreground code (30-37 and 90-97); light
/// gray for any other code.
pub open spec fn spec_ansi_color(code: u8) -> Rgba {
    if code == 30 {
        opaque(0, 0, 0)
    } else if code == 31 {
        opaque(205, 49, 49)
    } else if code == 32 {
        opaque(13, 188, 121)
    } else if code == 33 {
        opaque(229, 229, 16)
    } else if code == 34 {
        opaque(36, 114, 200)
    } else if code == 35 {
        opaque(188, 63, 188)
    } else if code == 36 {
        opaque(17, 168, 205)
    } else if code == 37 {
        opaque(229, 229, 229)
    } else if code == 90 {
        opaque(102, 102, 102)
    } else if code == 91 {
        opaque(241, 76, 76)
    } else if code == 92 {
        opaque(35, 209, 139)
    } else if code == 93 {
        opaque(245, 245, 67)
    } else if code == 94 {
        opaque(59, 142, 234)
    } else if code == 95 {
        opaque(214, 112, 214)
    } else if code == 96 {
        opaque(41, 184, 219)
    } else if code == 97 {
        opaque(255, 255, 255)
    } else {
        default_text_color()
    }
}

/// The palette color of an ANSI foreground code.
pub fn ansi_to_color(code: u8) -> (r: Rgba)
    ensures
        r == spec_ansi_color(code),
{
    match code {
        30 => rgb(0, 0, 0),
        31 => rgb(205, 49, 49),
        32 => rgb(13, 188, 121),
        33 => rgb(229, 229, 16),
        34 => rgb(36, 114, 200),
        35 => rgb(188, 63, 188),
        36 => rgb(17, 168, 205),
        37 => rgb(229, 229, 229),
        90 => rgb(102, 102, 102),
        91 => rgb(241, 76, 76),
        92 => rgb(35, 209, 139),
        93 => rgb(245, 245, 67),
        94 => rgb(59, 142, 234),
        95 => rgb(214, 112, 214),
        96 => rgb(41, 184, 219),
        97 => rgb(255, 255, 255),
        _ => rgb(200, 200, 200),
    }
}

// ---------------------------------------------------------------------------
// Colored spans

/// A run of text in one color, bold or not.
pub struct ColoredSpan {
    pub text: String,
    pub color: Rgba,
    pub bold: bool,
}

/// The color and boldness in effect while scanning.
pub struct SpanStyle {
    pub color: Rgba,
    pub bold: bool,
}

/// The style of text before any code.
pub open spec fn initial_style() -> SpanStyle {
    SpanStyle { color: default_text_color(), bold: false }
}

/// The style after one code (text that `str::parse::<u8>` rejects changes
/// nothing): 0 resets, 1 sets bold, 22 clears it, a foreground code sets the
/// color, 39 restores the default color.
pub open spec fn style_after_code(st: SpanStyle, code: Seq<char>) -> SpanStyle {
    match unsigned_value(code) {
        Some(v) => if v > 255 {
            st
        } else if v == 0 {
            initial_style()
        } else if v == 1 {
            SpanStyle { bold: true, ..st }
        } else if v == 22 {
            SpanStyle { bold: false, ..st }
        } else if (30 <= v <= 37) || (90 <= v <= 97) {
            SpanStyle { color: spec_ansi_color(v as u8), ..st }
        } else if v == 39 {
            SpanStyle { color: default_text_color(), ..st }
        } else {
            st
        },
        None => st,
    }
}

/// The style after the codes of `codes`, in order.
pub open spec fn style_after_codes(st: SpanStyle, codes: Seq<Seq<char>>) -> SpanStyle
    decreases codes.len(),
{
    if codes.len() == 0 {
        st
    } else {
        style_after_code(style_after_codes(st, codes.drop_last()), codes.last())
    }
}

/// Whether `c` may stand between `ESC [` and `m`.
pub open spec fn is_param_char(c: char) -> bool {
    ('0' <= c && c <= '9') || c == ';'
}

/// The first position from `j` on that is not a parameter character.
pub open spec fn params_stop(s: Seq<char>, j: int) -> int
    decreases s.len() - j,
{
    if j < 0 || j >= s.len() {
        s.len() as int
    } else if is_param_char(s[j]) {
        params_stop(s, j + 1)
    } else {
        j
    }
}

/// The position of the `m` ending an escape sequence that starts at `i`, if
/// one does.
pub open spec fn sequence_end(s: Seq<char>, i: int) -> Option<int> {
    if 0 <= i && i + 1 < s.len() && s[i] == '\u{1b}' && s[i + 1] == '[' {
        let j = params_stop(s, i + 2);
        if j < s.len() && s[j] == 'm' {
            Some(j)
        } else {
            None
        }
    } else {
        None
    }
}

/// The start of the first escape sequence at or after `pos`, if any.
pub open spec fn next_sequence(s: Seq<char>, pos: int) -> Option<int>
    decreases s.len() - pos,
{
    if pos < 0 || pos >= s.len() {
        None
    } else if sequence_end(s, pos) is Some {
        Some(pos)
    } else {
        next_sequence(s, pos + 1)
    }
}

/// A span as text, color and boldness.
pub type SpanModel = (Seq<char>, Rgba, bool);

/// The spans of `s` from `pos` on, in style `st`: the text before each
/// escape sequence (when not empty) in the style then in effect, the
/// sequence's codes changing the style, and the text after the last one.
pub open spec fn spans_from(s: Seq<char>, pos: int, st: SpanStyle) -> Seq<SpanModel>
    decreases s.len() - pos,
{
    if pos < 0 || pos >= s.len() {
        seq![]
    } else {
        match next_sequence(s, pos) {
            Some(m) => {
                let end = sequence_end(s, m).unwrap();
                let before: Seq<SpanModel> = if m > pos {
                    seq![(s.subrange(pos, m), st.color, st.bold)]
                } else {
                    seq![]
                };
                let st2 = style_after_codes(st, split_on(s.subrange(m + 2, end), ';'));
                if end + 1 > pos && end < s.len() {
                    before + spans_from(s, end + 1, st2)
                } else {
                    before
                }
            },
            None => seq![(s.subrange(pos, s.len() as int), st.color, st.bold)],
        }
    }
}

/// The spans of a line: as `spans_from` gives them from the start, or the
/// whole line in the default style when that gives none.
pub open spec fn ansi_line_spans(s: Seq<char>) -> Seq<SpanModel> {
    let spans = spans_from(s, 0, initial_style());
    if spans.len() == 0 {
        seq![(s, default_text_color(), false)]
    } else {
        spans
    }
}

/// The spans as text, color and boldness.
pub open spec fn span_models(v: Seq<ColoredSpan>) -> Seq<SpanModel> {
    v.map_values(|sp: ColoredSpan| (sp.text@, sp.color, sp.bold))
}

proof fn lemma_params_stop_bounds(s: Seq<char>, j: int)
    requires
        0 <= j,
    ensures
        j <= params_stop(s, j) <= s.len() || (j > s.len() && params_stop(s, j) == s.len()),
        forall|k: int| j <= k < params_stop(s, j) ==> is_param_char(#[trigger] s[k]),
    decreases s.len() - j,
{
    if j < s.len() && is_param_char(s[j]) {
        lemma_params_stop_bounds(s, j + 1);
    }
}

/// The position of the `m` ending an escape sequence at `i`, if one does.
fn sequence_end_at(cs: &Vec<char>, i: usize) -> (r: Option<usize>)
    requires
        i < cs@.len(),
    ensures
        match sequence_end(cs@, i as int) {
            Some(j) => r matches Some(e) && e as int == j,
            None => r is None,
        },
        r matches Some(j) ==> i + 2 <= j < cs@.len(),
{
    let n = cs.len();
    if !(i + 1 < n && cs[i] == '\u{1b}' && cs[i + 1] == '[') {
        return None;
    }
    let mut j = i + 2;
    while j < n && ((cs[j] >= '0' && cs[j] <= '9') || cs[j] == ';')
        invariant
            i + 2 <= j <= n == cs@.len(),
            params_stop(cs@, i + 2) == params_stop(cs@, j as int),
        decreases n - j,
    {
        j += 1;
    }
    proof {
        lemma_params_stop_bounds(cs@, i + 2);
    }
    if j < n && cs[j] == 'm' {
        Some(j)
    } else {
        None
    }
}

/// The style after parsing the codes of the parameter text.
fn apply_codes(st: SpanStyle, codes: &Vec<String>) -> (r: SpanStyle)
    ensures
        r == style_after_codes(st, crate::text::string_views(codes@)),
{
    let mut cur = st;
    let mut k: usize = 0;
    while k < codes.len()
        invariant
            k <= codes@.len(),
            cur == style_after_codes(st, crate::text::string_views(codes@.take(k as int))),
        decreases codes@.len() - k,
    {
        assert(crate::text::string_views(codes@.take(k + 1)).drop_last() =~= crate::text::string_views(codes@.take(k as int)));
        match parse_unsigned(codes[k].as_str(), 255) {
            Some(v) => {
                if v == 0 {
                    cur = SpanStyle { color: rgb(200, 200, 200), bold: false };
                } else if v == 1 {
                    cur = SpanStyle { color: cur.color, bold: true };
                } else if v == 22 {
                    cur = SpanStyle { color: cur.color, bold: false };
                } else if (30 <= v && v <= 37) || (90 <= v && v <= 97) {
                    cur = SpanStyle { color: ansi_to_color(v as u8), bold: cur.bold };
                } else if v == 39 {
                    cur = SpanStyle { color: rgb(200, 200, 200), bold: cur.bold };
                }
            },
            None => {},
        }
        k += 1;
    }
    assert(codes@.take(codes@.len() as int) =~= codes@);
    cur
}

/// Splits a line with ANSI color sequences into colored spans; a line with
/// no text outside sequences gives one span of the whole line in the default
/// color.
pub fn parse_ansi_line(text: &str) -> (r: Vec<ColoredSpan>)
    ensures
        span_models(r@) == ansi_line_spans(text@),
{
    let cs = chars_of(text);
    let n = cs.len();
    let mut spans: Vec<ColoredSpan> = Vec::new();
    let mut st = SpanStyle { color: rgb(200, 200, 200), bold: false };
    let mut pos: usize = 0;
    let mut i: usize = 0;
    while i < n
        invariant
            cs@ == text@,
            n == cs@.len(),
            pos <= i <= n,
            span_models(spans@) + spans_from(cs@, pos as int, st) == spans_from(cs@, 0, initial_style()),
            next_sequence(cs@, pos as int) == next_sequence(cs@, i as int),
        decreases n - i,
    {
        match sequence_end_at(&cs, i) {
            Some(end) => {
                proof {
                    assert(next_sequence(cs@, i as int) == Some(i as int));
                }
                let ghost before = span_models(spans@);
                if i > pos {
                    let seg = string_of(cs.as_slice(), pos, i);
                    spans.push(ColoredSpan { text: seg, color: st.color, bold: st.bold });
                }
                let params = string_of(cs.as_slice(), i + 2, end);
                let codes = split_char(params.as_str(), ';');
                proof {
                    assert(crate::text::string_views(codes@) =~= split_on(cs@.subrange(i + 2, end as int), ';'));
                }
                let ghost st_old = st;
                st = apply_codes(st, &codes);
                proof {
                    let seg_part: Seq<SpanModel> = if i > pos {
                        seq![(cs@.subrange(pos as int, i as int), st_old.color, st_old.bold)]
                    } else {
                        Seq::<SpanModel>::empty()
                    };
                    assert(span_models(spans@) =~= before + seg_part);
                    assert(sequence_end(cs@, i as int) == Some(end as int));
                    assert(spans_from(cs@, pos as int, st_old) == seg_part + spans_from(cs@, end + 1, st));
                    assert(before + spans_from(cs@, pos as int, st_old) == spans_from(cs@, 0, initial_style()));
                    assert(span_models(spans@) + spans_from(cs@, end + 1, st) =~= before + (seg_part + spans_from(cs@, end + 1, st)));
                }
                pos = end + 1;
                i = end + 1;
            },
            None => {
                proof {
                    if (i as int) < n {
                        assert(next_sequence(cs@, i as int) == next_sequence(cs@, i + 1));
                    }
                }
                i += 1;
            },
        }
    }
    if pos < n {
        let seg = string_of(cs.as_slice(), pos, n);
        let ghost before = span_models(spans@);
        spans.push(ColoredSpan { text: seg, color: st.color, bold: st.bold });
        proof {
            assert(next_sequence(cs@, n as int) is None);
            assert(span_models(spans@) =~= before + seq![(cs@.subrange(pos as int, n as int), st.color, st.bold)]);
        }
    } else {
        assert(span_models(spans@) + Seq::<SpanModel>::empty() =~= span_models(spans@));
    }
    if spans.len() == 0 {
        spans.push(ColoredSpan { text: crate::text::copy_str(text), color: rgb(200, 200, 200), bold: false });
        assert(span_models(spans@) =~= seq![(text@, default_text_color(), false)]);
    }
    spans
}

} // verus!
