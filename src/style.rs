//! How the elements are joined and coloured.
use vstd::prelude::*;

verus! {

/// How elements are joined: the text between two neighbours, the largest
/// number of elements shown, and a marker for dropped elements (kept as data;
/// elements beyond `max_elems` are dropped without it).
pub struct MutliSegmentJoiner<T> {
    pub separator: T,
    pub max_elems: usize,
    pub elipsis: T,
}

impl MutliSegmentJoiner<&'static str> {
    /// The joiner of a prompt line: `" / "` between elements, at most five
    /// elements, `"..."` as the marker.
    pub fn prompt_default() -> (r: Self)
        ensures
            r.separator@ == seq![' ', '/', ' '],
            r.max_elems == 5,
            r.elipsis@ == seq!['.', '.', '.'],
    {
        proof {
            reveal_strlit(" / ");
            reveal_strlit("...");
        }
        MutliSegmentJoiner { separator: " / ", max_elems: 5, elipsis: "..." }
    }
}

/// A terminal colour.
#[derive(Clone, Copy, Debug, PartialEq, Eq)]
pub enum Color {
    Black,
    Blue,
    Green,
    Red,
    Cyan,
    Magenta,
    Yellow,
    White,
    Ansi256(u8),
    Rgb(u8, u8, u8),
}

/// The colours that a rendered line is written in.
#[derive(Clone, Copy, Debug, PartialEq, Eq)]
pub struct MutliSegmentStyle {
    pub fg: Color,
    pub bg: Color,
}

impl MutliSegmentStyle {
    pub fn from_colors(fg: Color, bg: Color) -> (r: MutliSegmentStyle)
        ensures
            r.fg == fg,
            r.bg == bg,
    {
        MutliSegmentStyle { fg, bg }
    }
}

} // verus!
