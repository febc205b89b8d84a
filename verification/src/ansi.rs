//! ANSI SGR escape sequences (`ESC [ params m`) in log lines: splitting a
//! line into styled spans of text.
use vstd::prelude::*;
use crate::text::{chars_of, push_char, parse_unsigned, split_char, split_on, string_of, unsigned_value};

verus! {

/// A terminal color that a span's text may be drawn in.
#[derive(Clone, Copy, Debug, PartialEq, Eq, Structural)]
pub enum TermColor {
    Black,
    Red,
    Green,
    Yellow,
    Blue,
    Magenta,
    Cyan,
    Gray,
    DarkGray,
    LightRed,
    LightGreen,
    LightYellow,
    LightBlue,
    LightMagenta,
    LightCyan,
    White,
}

/// The style of a span: an optional foreground color and boldness.
#[derive(Clone, Copy, Debug, PartialEq, Eq, Structural)]
pub struct TextStyle {
    pub fg: Option<TermColor>,
    pub bold: bool,
}

/// The plain style: default color, not bold.
pub open spec fn plain_style() -> TextStyle {
    TextStyle { fg: None, bold: false }
}

impl TextStyle {
    /// The plain style: default color, not bold.
    pub fn plain() -> (r: TextStyle)
        ensures
            r == plain_style(),
    {
        TextStyle { fg: None, bold: false }
    }
}

/// A run of text drawn in one style.
pub struct StyledSpan {
    pub text: String,
    pub style: TextStyle,
}

impl View for StyledSpan {
    type V = (Seq<char>, TextStyle);

    open spec fn view(&self) -> (Seq<char>, TextStyle) {
        (self.text@, self.style)
    }
}

/// The color an SGR foreground code selects (30-37 and 90-97).
pub open spec fn code_color(code: nat) -> Option<TermColor> {
    if code == 30 {
        Some(TermColor::Black)
    } else if code == 31 {
        Some(TermColor::Red)
    } else if code == 32 {
        Some(TermColor::Green)
    } else if code == 33 {
        Some(TermColor::Yellow)
    } else if code == 34 {
        Some(TermColor::Blue)
    } else if code == 35 {
        Some(TermColor::Magenta)
    } else if code == 36 {
        Some(TermColor::Cyan)
    } else if code == 37 {
        Some(TermColor::Gray)
    } else if code == 90 {
        Some(TermColor::DarkGray)
    } else if code == 91 {
        Some(TermColor::LightRed)
    } else if code == 92 {
        Some(TermColor::LightGreen)
    } else if code == 93 {
        Some(TermColor::LightYellow)
    } else if code == 94 {
        Some(TermColor::LightBlue)
    } else if code == 95 {
        Some(TermColor::LightMagenta)
    } else if code == 96 {
        Some(TermColor::LightCyan)
    } else if code == 97 {
        Some(TermColor::White)
    } else {
        None
    }
}

/// The style after one SGR code: 1 makes bold, a color code sets the
/// foreground, and any other code (0 among them) resets to the plain style.
pub open spec fn apply_code(style: TextStyle, code: nat) -> TextStyle {
    if code == 0 {
        plain_style()
    } else if code == 1 {
        TextStyle { bold: true, ..style }
    } else {
        match code_color(code) {
            Some(c) => TextStyle { fg: Some(c), ..style },
            None => plain_style(),
        }
    }
}

/// The code a parameter stands for: its value when it reads as a `u8`, else 0.
pub open spec fn param_code(piece: Seq<char>) -> nat {
    match unsigned_value(piece) {
        Some(v) => if v <= 255 {
            v
        } else {
            0
        },
        None => 0,
    }
}

/// The style after the codes `pieces`, applied in order.
pub open spec fn apply_codes(style: TextStyle, pieces: Seq<Seq<char>>) -> TextStyle
    decreases pieces.len(),
{
    if pieces.len() == 0 {
        style
    } else {
        apply_codes(apply_code(style, param_code(pieces[0])), pieces.drop_first())
    }
}

/// The style after an SGR sequence with parameters `params` (separated by `;`).
pub open spec fn apply_sgr(style: TextStyle, params: Seq<char>) -> TextStyle {
    apply_codes(style, split_on(params, ';'))
}

fn code_color_of(code: u64) -> (r: Option<TermColor>)
    ensures
        r == code_color(code as nat),
{
    match code {
        30 => Some(TermColor::Black),
        31 => Some(TermColor::Red),
        32 => Some(TermColor::Green),
        33 => Some(TermColor::Yellow),
        34 => Some(TermColor::Blue),
        35 => Some(TermColor::Magenta),
        36 => Some(TermColor::Cyan),
        37 => Some(TermColor::Gray),
        90 => Some(TermColor::DarkGray),
        91 => Some(TermColor::LightRed),
        92 => Some(TermColor::LightGreen),
        93 => Some(TermColor::LightYellow),
        94 => Some(TermColor::LightBlue),
        95 => Some(TermColor::LightMagenta),
        96 => Some(TermColor::LightCyan),
        97 => Some(TermColor::White),
        _ => None,
    }
}

/// Applies the SGR parameters `params` to `style`.
pub fn apply_sgr_params(style: TextStyle, params: &str) -> (r: TextStyle)
    ensures
        r == apply_sgr(style, params@),
{
    let pieces = split_char(params, ';');
    let ghost ps = split_on(params@, ';');
    let mut st = style;
    let mut i: usize = 0;
    assert(ps.skip(0) == ps);
    while i < pieces.len()
        invariant
            i <= pieces@.len(),
            pieces@.len() == ps.len(),
            forall|k: int| 0 <= k < pieces@.len() ==> #[trigger] pieces@[k]@ == ps[k],
            apply_codes(style, ps) == apply_codes(st, ps.skip(i as int)),
        decreases pieces@.len() - i,
    {
        let code: u64 = match parse_unsigned(pieces[i].as_str(), 255) {
            Some(v) => v,
            None => 0,
        };
        assert(ps.skip(i as int)[0] == ps[i as int]);
        assert(ps.skip(i as int).drop_first() == ps.skip(i + 1));
        st = if code == 0 {
            TextStyle::plain()
        } else if code == 1 {
            TextStyle { bold: true, ..st }
        } else {
            match code_color_of(code) {
                Some(c) => TextStyle { fg: Some(c), ..st },
                None => TextStyle::plain(),
            }
        };
        i += 1;
    }
    assert(ps.skip(pieces@.len() as int) =~= Seq::<Seq<char>>::empty());
    st
}

/// The escape character, `ESC`.
pub const ESC: char = '\u{1b}';

/// Where the parameters of a sequence starting at `j` end: the first `m` or
/// `ESC` at or after `j`, or the end of the text.
pub open spec fn params_end(b: Seq<char>, j: int) -> int
    decreases b.len() - j,
{
    if j < 0 || j >= b.len() {
        b.len() as int
    } else if b[j] == 'm' || b[j] == ESC {
        j
    } else {
        params_end(b, j + 1)
    }
}

/// The spans pending text makes: none when it is empty.
pub open spec fn flush(out: Seq<(Seq<char>, TextStyle)>, text: Seq<char>, style: TextStyle) -> Seq<(Seq<char>, TextStyle)> {
    if text.len() > 0 {
        out.push((text, style))
    } else {
        out
    }
}

/// Splits the text `b` from position `i` on into styled spans. `style` is
/// the current style, `text` the pending text and `out` the spans so far. An
/// `ESC [` starts a sequence whose parameters run to the next `m` (which ends
/// it and applies it) or `ESC` or the end (either of which drops it); every
/// other character is text.
pub open spec fn scan(
    b: Seq<char>,
    i: int,
    style: TextStyle,
    text: Seq<char>,
    out: Seq<(Seq<char>, TextStyle)>,
) -> Seq<(Seq<char>, TextStyle)>
    decreases b.len() - i,
{
    if i < 0 || i >= b.len() {
        flush(out, text, style)
    } else if b[i] == ESC && i + 1 < b.len() && b[i + 1] == '[' {
        let j = params_end(b, i + 2);
        proof {
            lemma_params_end_ge(b, i + 2);
        }
        if j < b.len() && b[j] == 'm' {
            scan(b, j + 1, apply_sgr(style, b.subrange(i + 2, j)), seq![], flush(out, text, style))
        } else {
            if j > i {
                scan(b, j, style, seq![], flush(out, text, style))
            } else {
                flush(out, text, style)
            }
        }
    } else {
        scan(b, i + 1, style, text.push(b[i]), out)
    }
}

pub proof fn lemma_params_end(b: Seq<char>, from: int, j: int)
    requires
        0 <= from <= j <= b.len(),
        forall|k: int| from <= k < j ==> #[trigger] b[k] != 'm' && b[k] != ESC,
    ensures
        params_end(b, from) == params_end(b, j),
    decreases j - from,
{
    if from < j {
        lemma_params_end(b, from + 1, j);
    }
}

pub proof fn lemma_params_end_ge(b: Seq<char>, j: int)
    requires
        0 <= j,
    ensures
        params_end(b, j) >= j || params_end(b, j) == b.len(),
        params_end(b, j) <= b.len(),
    decreases b.len() - j,
{
    if 0 <= j < b.len() && !(b[j] == 'm' || b[j] == ESC) {
        lemma_params_end_ge(b, j + 1);
    }
}

/// The styled spans of a line: its text split at SGR sequences, each span in
/// the style the sequences before it set (see `scan`).
pub open spec fn ansi_spans(raw: Seq<char>) -> Seq<(Seq<char>, TextStyle)> {
    scan(raw, 0, plain_style(), seq![], seq![])
}

/// Appends to `out` the styled spans of `raw` (see `ansi_spans`).
pub fn ansi_to_spans(raw: &str, out: &mut Vec<StyledSpan>)
    ensures
        final(out)@.map_values(|s: StyledSpan| s@) == old(out)@.map_values(|s: StyledSpan| s@)
            + ansi_spans(raw@),
{
    let cs = chars_of(raw);
    let ghost b = cs@;
    let mut acc: Vec<StyledSpan> = Vec::new();
    let mut style = TextStyle::plain();
    let mut text = String::new();
    let mut i: usize = 0;
    assert(acc@.map_values(|s: StyledSpan| s@) =~= Seq::<(Seq<char>, TextStyle)>::empty());
    while i < cs.len()
        invariant
            b == cs@,
            b == raw@,
            i <= b.len(),
            scan(b, 0, plain_style(), seq![], seq![]) == scan(
                b,
                i as int,
                style,
                text@,
                acc@.map_values(|s: StyledSpan| s@),
            ),
        decreases b.len() - i,
    {
        let ghost acc0 = acc@.map_values(|s: StyledSpan| s@);
        let ghost text0 = text@;
        let ghost style0 = style;
        if cs[i] == ESC && i + 1 < cs.len() && cs[i + 1] == '[' {
            if !text.as_str().is_empty() {
                let t = text;
                text = String::new();
                acc.push(StyledSpan { text: t, style });
                assert(acc@.map_values(|s: StyledSpan| s@) =~= acc0.push((text0, style0)));
            }
            assert(acc@.map_values(|s: StyledSpan| s@) == flush(acc0, text0, style0));
            let mut j = i + 2;
            while j < cs.len() && cs[j] != 'm' && cs[j] != ESC
                invariant
                    b == cs@,
                    i + 2 <= j <= b.len(),
                    forall|k: int| i + 2 <= k < j ==> #[trigger] b[k] != 'm' && b[k] != ESC,
                decreases b.len() - j,
            {
                j += 1;
            }
            proof {
                lemma_params_end(b, i + 2, j as int);
                assert(params_end(b, j as int) == j);
                assert(text@ =~= Seq::<char>::empty());
            }
            if j < cs.len() && cs[j] == 'm' {
                let params = string_of(cs.as_slice(), i + 2, j);
                style = apply_sgr_params(style, params.as_str());
                i = j + 1;
            } else {
                i = j;
            }
        } else {
            push_char(&mut text, cs[i]);
            i += 1;
        }
    }
    if !text.as_str().is_empty() {
        let ghost acc0 = acc@.map_values(|s: StyledSpan| s@);
        let ghost text0 = text@;
        acc.push(StyledSpan { text, style });
        assert(acc@.map_values(|s: StyledSpan| s@) =~= acc0.push((text0, style)));
    }
    let ghost acc_v = acc@.map_values(|s: StyledSpan| s@);
    let ghost out0 = out@;
    out.append(&mut acc);
    assert(out@.map_values(|s: StyledSpan| s@) =~= out0.map_values(|s: StyledSpan| s@) + acc_v);
}

} // verus!
