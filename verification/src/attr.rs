//! Colors and display attributes, and the SGR (Select Graphic Rendition)
//! rules that mutate them.

use vstd::prelude::*;

verus! {

/// A display color: the terminal's configured default (distinct from black),
/// one of the 8 standard named colors, one of their 8 "bright" counterparts,
/// an 8-bit palette index, or a 24-bit RGB triple. Equality is structural.
#[derive(Clone, Copy, Debug, PartialEq, Eq, Structural)]
pub enum Color {
    Default,
    Black,
    Red,
    Green,
    Yellow,
    Blue,
    Magenta,
    Cyan,
    White,
    BrightBlack,
    BrightRed,
    BrightGreen,
    BrightYellow,
    BrightBlue,
    BrightMagenta,
    BrightCyan,
    BrightWhite,
    Indexed(u8),
    Rgb(u8, u8, u8),
}

impl Default for Color {
    fn default() -> (c: Color)
        ensures
            c == Color::Default,
    {
        Color::Default
    }
}

/// The style attached to a printed character: foreground and background color
/// plus four independent boolean style flags. Attribute values are immutable
/// snapshots once attached to a cell or an event; they are copied by value.
#[derive(Clone, Copy, Debug, PartialEq, Eq, Structural)]
pub struct Attributes {
    pub foreground: Color,
    pub background: Color,
    pub bold: bool,
    pub italic: bool,
    pub underline: bool,
    pub inverse: bool,
}

/// The default attribute set: use-default colors, all style flags off.
pub open spec fn default_attrs() -> Attributes {
    Attributes {
        foreground: Color::Default,
        background: Color::Default,
        bold: false,
        italic: false,
        underline: false,
        inverse: false,
    }
}

impl Default for Attributes {
    fn default() -> (a: Attributes)
        ensures
            a == default_attrs(),
    {
        Attributes {
            foreground: Color::Default,
            background: Color::Default,
            bold: false,
            italic: false,
            underline: false,
            inverse: false,
        }
    }
}

/// The named color selected by SGR codes 30-37 (foreground) and 40-47
/// (background), by offset 0-7.
pub open spec fn named_color(n: int) -> Color {
    if n == 0 {
        Color::Black
    } else if n == 1 {
        Color::Red
    } else if n == 2 {
        Color::Green
    } else if n == 3 {
        Color::Yellow
    } else if n == 4 {
        Color::Blue
    } else if n == 5 {
        Color::Magenta
    } else if n == 6 {
        Color::Cyan
    } else {
        Color::White
    }
}

/// The bright named color selected by SGR codes 90-97, by offset 0-7.
pub open spec fn bright_color(n: int) -> Color {
    if n == 0 {
        Color::BrightBlack
    } else if n == 1 {
        Color::BrightRed
    } else if n == 2 {
        Color::BrightGreen
    } else if n == 3 {
        Color::BrightYellow
    } else if n == 4 {
        Color::BrightBlue
    } else if n == 5 {
        Color::BrightMagenta
    } else if n == 6 {
        Color::BrightCyan
    } else {
        Color::BrightWhite
    }
}

/// The effect of a single-code SGR parameter group on the current attributes.
/// Unrecognized codes are ignored without error.
pub open spec fn sgr_single(a: Attributes, v: u16) -> Attributes {
    if v == 0 {
        default_attrs()
    } else if v == 1 {
        Attributes { bold: true, ..a }
    } else if v == 3 {
        Attributes { italic: true, ..a }
    } else if v == 4 {
        Attributes { underline: true, ..a }
    } else if v == 7 {
        Attributes { inverse: true, ..a }
    } else if v == 22 {
        Attributes { bold: false, ..a }
    } else if v == 23 {
        Attributes { italic: false, ..a }
    } else if v == 24 {
        Attributes { underline: false, ..a }
    } else if v == 27 {
        Attributes { inverse: false, ..a }
    } else if 30 <= v && v <= 37 {
        Attributes { foreground: named_color(v - 30), ..a }
    } else if v == 38 {
        Attributes { foreground: Color::Default, ..a }
    } else if 40 <= v && v <= 47 {
        Attributes { background: named_color(v - 40), ..a }
    } else if v == 49 {
        Attributes { background: Color::Default, ..a }
    } else if 90 <= v && v <= 97 {
        Attributes { foreground: bright_color(v - 90), ..a }
    } else {
        a
    }
}

/// The effect of one SGR parameter group (the sub-values that stood between
/// two `;` separators, themselves separated by `:`) on the current
/// attributes. A group of one value acts per [`sgr_single`]; the five-value
/// forms `38;2;R;G;B` / `48;2;R;G;B` select RGB colors and the three-value
/// forms `38;5;N` / `48;5;N` select palette colors; any other shape is
/// ignored without error.
pub open spec fn sgr_group(a: Attributes, g: Seq<u16>) -> Attributes {
    if g.len() == 1 {
        sgr_single(a, g[0])
    } else if g.len() == 3 && g[0] == 38 && g[1] == 5 {
        Attributes { foreground: Color::Indexed(g[2] as u8), ..a }
    } else if g.len() == 5 && g[0] == 38 && g[1] == 2 {
        Attributes { foreground: Color::Rgb(g[2] as u8, g[3] as u8, g[4] as u8), ..a }
    } else if g.len() == 3 && g[0] == 48 && g[1] == 5 {
        Attributes { background: Color::Indexed(g[2] as u8), ..a }
    } else if g.len() == 5 && g[0] == 48 && g[1] == 2 {
        Attributes { background: Color::Rgb(g[2] as u8, g[3] as u8, g[4] as u8), ..a }
    } else {
        a
    }
}

/// True when `g` is the one-value group `[v]`.
pub open spec fn is_single(g: Seq<u16>, v: u16) -> bool {
    g.len() == 1 && g[0] == v
}

/// True when the groups open with the semicolon form of an extended palette
/// color: `38;5;N` or `48;5;N` arriving as the three one-value groups
/// `[38] [5] [N]`.
pub open spec fn sgr_ext_indexed(groups: Seq<Seq<u16>>) -> bool {
    &&& groups.len() >= 3
    &&& (is_single(groups[0], 38) || is_single(groups[0], 48))
    &&& is_single(groups[1], 5)
    &&& groups[2].len() == 1
}

/// True when the groups open with the semicolon form of an extended RGB
/// color: `38;2;R;G;B` or `48;2;R;G;B` arriving as five one-value groups.
pub open spec fn sgr_ext_rgb(groups: Seq<Seq<u16>>) -> bool {
    &&& groups.len() >= 5
    &&& (is_single(groups[0], 38) || is_single(groups[0], 48))
    &&& is_single(groups[1], 2)
    &&& groups[2].len() == 1
    &&& groups[3].len() == 1
    &&& groups[4].len() == 1
}

/// How many groups the leading SGR directive spans: five for a
/// semicolon-form RGB color, three for a semicolon-form palette color, one
/// for everything else (the colon forms stand whole in one group).
pub open spec fn sgr_consume(groups: Seq<Seq<u16>>) -> int {
    if sgr_ext_rgb(groups) {
        5
    } else if sgr_ext_indexed(groups) {
        3
    } else {
        1
    }
}

/// The effect of the leading SGR directive on the current attributes.
pub open spec fn sgr_head(a: Attributes, groups: Seq<Seq<u16>>) -> Attributes {
    if sgr_ext_rgb(groups) {
        let c = Color::Rgb(groups[2][0] as u8, groups[3][0] as u8, groups[4][0] as u8);
        if groups[0][0] == 38 {
            Attributes { foreground: c, ..a }
        } else {
            Attributes { background: c, ..a }
        }
    } else if sgr_ext_indexed(groups) {
        let c = Color::Indexed(groups[2][0] as u8);
        if groups[0][0] == 38 {
            Attributes { foreground: c, ..a }
        } else {
            Attributes { background: c, ..a }
        }
    } else {
        sgr_group(a, groups[0])
    }
}

/// Left-to-right application of every SGR directive in one sequence, so
/// that a later code overrides an earlier one touching the same attribute.
pub open spec fn sgr_fold(a: Attributes, groups: Seq<Seq<u16>>) -> Attributes
    decreases groups.len(),
{
    if groups.len() == 0 {
        a
    } else {
        sgr_fold(sgr_head(a, groups), groups.skip(sgr_consume(groups)))
    }
}

/// The effect of a whole `m`-terminated CSI sequence on the current
/// attributes: a sequence with no parameter groups at all is a full reset
/// (as if it carried the single code `0`); otherwise each group applies in
/// order per [`sgr_fold`].
pub open spec fn sgr_apply(a: Attributes, groups: Seq<Seq<u16>>) -> Attributes {
    if groups.len() == 0 {
        default_attrs()
    } else {
        sgr_fold(a, groups)
    }
}

/// The views of the stored parameter groups of one CSI sequence.
pub(crate) proof fn lemma_groups_view(groups: &Vec<Vec<u16>>)
    ensures
        groups.deep_view().len() == groups@.len(),
        forall|i: int| 0 <= i < groups@.len() ==> groups.deep_view()[i] == groups@[i]@,
{
    assert forall|i: int| 0 <= i < groups@.len() implies groups.deep_view()[i] == groups@[i]@ by {
        assert(groups@[i].deep_view() =~= groups@[i]@);
    }
}

/// Applies one SGR parameter group to `a`.
pub fn apply_sgr_group(a: &mut Attributes, g: &Vec<u16>)
    ensures
        *final(a) == sgr_group(*old(a), g@),
{
    if g.len() == 1 {
        let v = g[0];
        if v == 0 {
            *a = Attributes::default();
        } else if v == 1 {
            a.bold = true;
        } else if v == 3 {
            a.italic = true;
        } else if v == 4 {
            a.underline = true;
        } else if v == 7 {
            a.inverse = true;
        } else if v == 22 {
            a.bold = false;
        } else if v == 23 {
            a.italic = false;
        } else if v == 24 {
            a.underline = false;
        } else if v == 27 {
            a.inverse = false;
        } else if 30 <= v && v <= 37 {
            a.foreground = named_color_exec(v - 30);
        } else if v == 38 {
            a.foreground = Color::Default;
        } else if 40 <= v && v <= 47 {
            a.background = named_color_exec(v - 40);
        } else if v == 49 {
            a.background = Color::Default;
        } else if 90 <= v && v <= 97 {
            a.foreground = bright_color_exec(v - 90);
        }
    } else if g.len() == 3 && g[0] == 38 && g[1] == 5 {
        a.foreground = Color::Indexed(#[verifier::truncate] (g[2] as u8));
    } else if g.len() == 5 && g[0] == 38 && g[1] == 2 {
        a.foreground = Color::Rgb(
            #[verifier::truncate] (g[2] as u8),
            #[verifier::truncate] (g[3] as u8),
            #[verifier::truncate] (g[4] as u8),
        );
    } else if g.len() == 3 && g[0] == 48 && g[1] == 5 {
        a.background = Color::Indexed(#[verifier::truncate] (g[2] as u8));
    } else if g.len() == 5 && g[0] == 48 && g[1] == 2 {
        a.background = Color::Rgb(
            #[verifier::truncate] (g[2] as u8),
            #[verifier::truncate] (g[3] as u8),
            #[verifier::truncate] (g[4] as u8),
        );
    }
}

fn named_color_exec(n: u16) -> (c: Color)
    requires
        n <= 7,
    ensures
        c == named_color(n as int),
{
    if n == 0 {
        Color::Black
    } else if n == 1 {
        Color::Red
    } else if n == 2 {
        Color::Green
    } else if n == 3 {
        Color::Yellow
    } else if n == 4 {
        Color::Blue
    } else if n == 5 {
        Color::Magenta
    } else if n == 6 {
        Color::Cyan
    } else {
        Color::White
    }
}

fn bright_color_exec(n: u16) -> (c: Color)
    requires
        n <= 7,
    ensures
        c == bright_color(n as int),
{
    if n == 0 {
        Color::BrightBlack
    } else if n == 1 {
        Color::BrightRed
    } else if n == 2 {
        Color::BrightGreen
    } else if n == 3 {
        Color::BrightYellow
    } else if n == 4 {
        Color::BrightBlue
    } else if n == 5 {
        Color::BrightMagenta
    } else if n == 6 {
        Color::BrightCyan
    } else {
        Color::BrightWhite
    }
}

/// Applies every SGR parameter group of one sequence in order; no groups at
/// all is a full reset.
pub fn apply_sgr(a: &mut Attributes, groups: &Vec<Vec<u16>>)
    ensures
        *final(a) == sgr_apply(*old(a), groups.deep_view()),
{
    let ghost gv: Seq<Seq<u16>> = groups.deep_view();
    proof {
        lemma_groups_view(groups);
    }
    if groups.len() == 0 {
        *a = Attributes::default();
    } else {
        proof {
            assert(gv.skip(0) =~= gv);
        }
        let mut i: usize = 0;
        while i < groups.len()
            invariant
                gv == groups.deep_view(),
                gv.len() == groups@.len(),
                forall|k: int| 0 <= k < groups@.len() ==> gv[k] == groups@[k]@,
                i <= groups@.len(),
                sgr_fold(*old(a), gv) == sgr_fold(*a, gv.skip(i as int)),
            decreases groups@.len() - i,
        {
            let ghost pre = *a;
            let ghost rest = gv.skip(i as int);
            let rem = groups.len() - i;
            let g0 = &groups[i];
            let consumed: usize;
            if g0.len() == 1 && (g0[0] == 38 || g0[0] == 48) {
                let to_fg = g0[0] == 38;
                if rem >= 3 && groups[i + 1].len() == 1 && groups[i + 1][0] == 5 && groups[i
                    + 2].len() == 1 {
                    let c = Color::Indexed(#[verifier::truncate] (groups[i + 2][0] as u8));
                    if to_fg {
                        a.foreground = c;
                    } else {
                        a.background = c;
                    }
                    consumed = 3;
                } else if rem >= 5 && groups[i + 1].len() == 1 && groups[i + 1][0] == 2 && groups[i
                    + 2].len() == 1 && groups[i + 3].len() == 1 && groups[i + 4].len() == 1 {
                    let c = Color::Rgb(
                        #[verifier::truncate] (groups[i + 2][0] as u8),
                        #[verifier::truncate] (groups[i + 3][0] as u8),
                        #[verifier::truncate] (groups[i + 4][0] as u8),
                    );
                    if to_fg {
                        a.foreground = c;
                    } else {
                        a.background = c;
                    }
                    consumed = 5;
                } else {
                    apply_sgr_group(a, g0);
                    consumed = 1;
                }
            } else {
                apply_sgr_group(a, g0);
                consumed = 1;
            }
            proof {
                assert(rest[0] == gv[i as int]);
                assert(*a == sgr_head(pre, rest));
                assert(consumed as int == sgr_consume(rest));
                assert(rest.skip(consumed as int) =~= gv.skip(i as int + consumed as int));
                assert(sgr_fold(pre, rest) == sgr_fold(*a, gv.skip(i as int + consumed as int)));
            }
            i = i + consumed;
        }
        proof {
            assert(gv.skip(groups@.len() as int) =~= Seq::<Seq<u16>>::empty());
        }
    }
}

} // verus!
