//! The colours of the user interface.
use vstd::prelude::*;

verus! {

/// A colour without transparency.
#[derive(Debug, Clone, Copy, PartialEq, Eq, Structural)]
pub struct Rgb {
    pub r: u8,
    pub g: u8,
    pub b: u8,
}

/// The accent colour of the dark theme.
pub fn teal() -> (r: Rgb)
    ensures
        r == (Rgb { r: 20, g: 148, b: 163 }),
{
    Rgb { r: 20, g: 148, b: 163 }
}

/// A channel mixed with a gray: `pct` percent of it, the rest gray.
pub open spec fn blend(channel: int, pct: int, base: int) -> int {
    (channel * pct + base * (100 - pct)) / 100
}

/// A channel mixed with a gray.
fn blend_channel(channel: u8, pct: u16, base: u16) -> (r: u8)
    requires
        pct <= 100,
        base <= 255,
    ensures
        r == blend(channel as int, pct as int, base as int),
{
    let c: u32 = channel as u32;
    let p: u32 = pct as u32;
    let b: u32 = base as u32;
    assert(c * p <= 255 * p && b * (100 - p) <= 255 * (100 - p)) by (nonlinear_arith)
        requires
            0 <= c <= 255,
            0 <= b <= 255,
            0 <= p <= 100,
    ;
    let sum: u32 = c * p + b * (100 - p);
    (sum / 100) as u8
}

/// A colour mixed with a gray: `pct` percent of it, the rest gray.
pub fn blend_accent(accent: Rgb, pct: u16, base: u16) -> (r: Rgb)
    requires
        pct <= 100,
        base <= 255,
    ensures
        r.r == blend(accent.r as int, pct as int, base as int),
        r.g == blend(accent.g as int, pct as int, base as int),
        r.b == blend(accent.b as int, pct as int, base as int),
{
    Rgb {
        r: blend_channel(accent.r, pct, base),
        g: blend_channel(accent.g, pct, base),
        b: blend_channel(accent.b, pct, base),
    }
}

/// A gray without transparency.
pub open spec fn gray_of(l: u8) -> Rgb {
    Rgb { r: l, g: l, b: l }
}

/// A gray without transparency.
pub fn gray(l: u8) -> (r: Rgb)
    ensures
        r == gray_of(l),
{
    Rgb { r: l, g: l, b: l }
}

/// The colours of the elements that the program draws itself, and of the
/// widgets that it colours.
#[derive(Debug, Clone, Copy, PartialEq, Eq, Structural)]
pub struct UiTheme {
    /// Toggles, links, highlights.
    pub accent: Rgb,
    /// How much of what is behind a dialog its black backdrop hides.
    pub backdrop_alpha: u8,
    pub card_bg: Rgb,
    pub card_stroke: Rgb,
    /// A section of a card, darker than the card.
    pub section_bg: Rgb,
    pub heading: Rgb,
    pub muted: Rgb,
    pub toggle_off: Rgb,
    pub toggle_knob: Rgb,
    /// The texts of widgets that cannot be used, wait, or are hovered, pressed
    /// or open.
    pub still_text: Rgb,
    pub waiting_text: Rgb,
    pub lively_text: Rgb,
    /// Behind a widget that is hovered or open.
    pub hover_bg: Rgb,
}

impl UiTheme {
    /// The teal dark theme. Hovered and open widgets stand on a third of the
    /// accent, mixed with dark gray.
    pub fn teal_dark() -> (r: Self)
        ensures
            r == (UiTheme {
                accent: Rgb { r: 20, g: 148, b: 163 },
                backdrop_alpha: 204,
                card_bg: gray_of(40),
                card_stroke: gray_of(80),
                section_bg: gray_of(30),
                heading: gray_of(180),
                muted: gray_of(140),
                toggle_off: gray_of(50),
                toggle_knob: gray_of(240),
                still_text: gray_of(210),
                waiting_text: gray_of(220),
                lively_text: gray_of(255),
                hover_bg: Rgb { r: 26, g: 71, b: 76 },
            }),
    {
        UiTheme {
            accent: teal(),
            backdrop_alpha: 204,
            card_bg: gray(40),
            card_stroke: gray(80),
            section_bg: gray(30),
            heading: gray(180),
            muted: gray(140),
            toggle_off: gray(50),
            toggle_knob: gray(240),
            still_text: gray(210),
            waiting_text: gray(220),
            lively_text: gray(255),
            hover_bg: blend_accent(teal(), 35, 30),
        }
    }
}

/// All of a colour is the colour, and none of it is the gray.
pub proof fn law_blend_goes_from_gray_to_the_colour(channel: int, base: int)
    ensures
        blend(channel, 100, base) == channel,
        blend(channel, 0, base) == base,
{
}

/// A blend is the weighted mean, rounded down, and so between the two.
pub proof fn law_a_blend_is_the_weighted_mean(channel: int, pct: int, base: int)
    requires
        0 <= pct <= 100,
        0 <= channel,
        0 <= base,
    ensures
        100 * blend(channel, pct, base) <= channel * pct + base * (100 - pct) < 100 * blend(channel, pct, base) + 100,
        channel <= base ==> channel <= blend(channel, pct, base) <= base,
        base <= channel ==> base <= blend(channel, pct, base) <= channel,
{
    let mean = channel * pct + base * (100 - pct);
    assert(channel <= base ==> 100 * channel <= mean <= 100 * base) by (nonlinear_arith)
        requires
            mean == channel * pct + base * (100 - pct),
            0 <= pct <= 100,
    ;
    assert(base <= channel ==> 100 * base <= mean <= 100 * channel) by (nonlinear_arith)
        requires
            mean == channel * pct + base * (100 - pct),
            0 <= pct <= 100,
    ;
}

} // verus!
