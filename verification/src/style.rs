//! The look of the window's panes: each kind of pane has its colour, and
//! panes and their title bars are drawn from it.

use vstd::prelude::*;

verus! {

/// A colour by its red, green and blue bytes.
#[derive(Clone, Copy, Debug, PartialEq, Eq, Structural)]
pub struct Rgb {
    pub r: u8,
    pub g: u8,
    pub b: u8,
}

/// White.
pub open spec fn white() -> Rgb {
    Rgb { r: 255, g: 255, b: 255 }
}

/// The colour of the text in title bars.
pub open spec fn title_text_color() -> Rgb {
    Rgb { r: 222, g: 222, b: 222 }
}

/// The kinds of pane in the window.
#[derive(Clone, Copy, Debug, PartialEq, Eq, Structural)]
pub enum PaneType {
    Information,
    History,
    Settings,
    Tile,
}

impl PaneType {
    /// The colour of a kind of pane.
    pub open spec fn color_spec(&self) -> Rgb {
        match *self {
            PaneType::Information => Rgb { r: 200, g: 0, b: 0 },
            PaneType::History => Rgb { r: 228, g: 38, b: 111 },
            PaneType::Settings => Rgb { r: 0, g: 103, b: 221 },
            PaneType::Tile => Rgb { r: 221, g: 159, b: 0 },
        }
    }

    /// The colour of this kind of pane.
    pub fn color(&self) -> (c: Rgb)
        ensures
            c == self.color_spec(),
    {
        match *self {
            PaneType::Information => Rgb { r: 200, g: 0, b: 0 },
            PaneType::History => Rgb { r: 228, g: 38, b: 111 },
            PaneType::Settings => Rgb { r: 0, g: 103, b: 221 },
            PaneType::Tile => Rgb { r: 221, g: 159, b: 0 },
        }
    }
}

/// How a container is drawn: background, border and text colours (None:
/// not drawn), border width and corner radius in pixels.
#[derive(Clone, Copy, Debug, PartialEq, Eq, Structural)]
pub struct ContainerStyle {
    pub background: Option<Rgb>,
    pub border_width: u32,
    pub border_radius: u32,
    pub border_color: Option<Rgb>,
    pub text_color: Option<Rgb>,
}

/// A pane of the window.
#[derive(Clone, Copy, Debug, PartialEq, Eq, Structural)]
pub struct Pane {
    pub pane_type: PaneType,
}

impl Pane {
    /// A white pane with a 2-pixel border of its kind's colour and corners
    /// of radius 4.
    pub fn style(&self) -> (s: ContainerStyle)
        ensures
            s == (ContainerStyle {
                background: Some(white()),
                border_width: 2,
                border_radius: 4,
                border_color: Some(self.pane_type.color_spec()),
                text_color: None,
            }),
    {
        ContainerStyle {
            background: Some(Rgb { r: 255, g: 255, b: 255 }),
            border_width: 2,
            border_radius: 4,
            border_color: Some(self.pane_type.color()),
            text_color: None,
        }
    }
}

/// The title bar of a pane.
#[derive(Clone, Copy, Debug, PartialEq, Eq, Structural)]
pub struct TitleBar {
    pub pane_type: PaneType,
}

impl TitleBar {
    /// A title bar filled with its pane's border colour, light text, a
    /// 2-pixel borderless edge and corners of radius 3.
    pub fn style(&self) -> (s: ContainerStyle)
        ensures
            s == (ContainerStyle {
                background: Some(self.pane_type.color_spec()),
                border_width: 2,
                border_radius: 3,
                border_color: None,
                text_color: Some(title_text_color()),
            }),
    {
        let pane = Pane { pane_type: self.pane_type };
        ContainerStyle {
            background: pane.style().border_color,
            border_width: 2,
            border_radius: 3,
            border_color: None,
            text_color: Some(Rgb { r: 222, g: 222, b: 222 }),
        }
    }
}


/// The number of bytes `c` takes in UTF-8.
pub open spec fn utf8_width(c: char) -> int {
    if (c as u32) < 0x80 {
        1
    } else if (c as u32) < 0x800 {
        2
    } else if (c as u32) < 0x10000 {
        3
    } else {
        4
    }
}

/// The number of bytes `s` takes in UTF-8.
pub open spec fn utf8_size(s: Seq<char>) -> int
    decreases s.len(),
{
    if s.len() == 0 {
        0
    } else {
        utf8_size(s.drop_last()) + utf8_width(s.last())
    }
}

/// How many characters of `s`, counting on from `i`, a caption cut at
/// `length` bytes keeps: the fewest whose bytes reach `length` (all of
/// them when `s` is shorter), so that a character is never split.
pub open spec fn kept_chars(s: Seq<char>, length: int, i: int) -> int
    decreases s.len() - i,
{
    if i < 0 || i >= s.len() || utf8_size(s.take(i)) >= length {
        i
    } else {
        kept_chars(s, length, i + 1)
    }
}

/// A caption of at most about `length` bytes: `s` itself when it fits,
/// otherwise its first characters up to the first character boundary at
/// or after `length` bytes, followed by "...".
pub open spec fn small_caption(s: Seq<char>, length: int) -> Seq<char> {
    let k = kept_chars(s, length, 0);
    if k == s.len() {
        s
    } else {
        s.take(k) + "..."@
    }
}

fn char_width(c: char) -> (w: u128)
    ensures
        w == utf8_width(c),
{
    let v = c as u32;
    if v < 0x80 {
        1
    } else if v < 0x800 {
        2
    } else if v < 0x10000 {
        3
    } else {
        4
    }
}

/// Shortens a caption shown in a narrow box: cuts it at the first character
/// boundary at or after `length` bytes and marks the cut with "...".
pub fn get_small_caption(caption: String, length: usize) -> (r: String)
    ensures
        r@ == small_caption(caption@, length as int),
{
    let text = caption.as_str();
    let n = text.unicode_len();
    let ghost s = caption@;
    let mut i: usize = 0;
    let mut size: u128 = 0;
    proof {
        assert(s.take(0).len() == 0);
    }
    while i < n && size < length as u128
        invariant
            text@ == s,
            n == s.len(),
            i <= n,
            size == utf8_size(s.take(i as int)),
            size <= 4 * i,
            kept_chars(s, length as int, 0) == kept_chars(s, length as int, i as int),
        decreases n - i,
    {
        let c = text.get_char(i);
        proof {
            assert(s.take(i + 1).drop_last() =~= s.take(i as int));
            assert(s.take(i + 1).last() == c);
        }
        size = size + char_width(c);
        i = i + 1;
    }
    if i == n {
        proof {
            assert(s.take(i as int) =~= s);
        }
        return caption;
    }
    let mut r = String::from_str(text.substring_char(0, i));
    r.append("...");
    proof {
        assert(s.subrange(0, i as int) =~= s.take(i as int));
    }
    r
}

} // verus!
