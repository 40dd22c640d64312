use vstd::prelude::*;

verus! {

/// A rectangle on the terminal grid, in cells.
#[derive(Clone, Copy, Debug, Default, PartialEq, Eq, Structural)]
pub struct Rect {
    pub x: u16,
    pub y: u16,
    pub width: u16,
    pub height: u16,
}

impl Rect {
    pub fn new(x: u16, y: u16, width: u16, height: u16) -> (r: Rect)
        ensures
            r == (Rect { x, y, width, height }),
    {
        Rect { x, y, width, height }
    }

    /// Whether the rectangle lies inside the u16 coordinate space.
    pub fn within_grid(&self) -> (r: bool)
        ensures
            r == self.fits(),
    {
        (self.x as u32) + (self.width as u32) <= 65535 && (self.y as u32) + (self.height as u32) <= 65535
    }

    /// The rectangle lies inside the u16 coordinate space.
    pub open spec fn fits(self) -> bool {
        &&& self.x + self.width <= u16::MAX
        &&& self.y + self.height <= u16::MAX
    }

    /// The cells strictly inside the border of the rectangle.
    pub open spec fn strictly_contains(self, x: int, y: int) -> bool {
        &&& self.x < x < self.x + self.width
        &&& self.y < y < self.y + self.height
    }
}

/// Whether a point lies strictly inside a rectangle (its border excluded).
pub fn is_in_hitbox(point: (u16, u16), rect: &Rect) -> (r: bool)
    requires
        rect.fits(),
    ensures
        r == rect.strictly_contains(point.0 as int, point.1 as int),
{
    let (x, y) = point;
    (x > rect.x) && (x < (rect.x + rect.width)) && (y > rect.y) && (y < (rect.y + rect.height))
}

/// A direction in which a list selection moves.
#[derive(Clone, Copy, Debug, PartialEq, Eq, Structural)]
pub enum Direction {
    UP,
    DOWN,
}

/// Which kind of popup menu is shown.
#[derive(Clone, Copy, Debug, PartialEq, Eq, Structural)]
pub enum MenuScreenType {
    EDITOR,
    SEARCH,
}

/// Which divider is being dragged with the mouse.
#[derive(Clone, Copy, Debug, PartialEq, Eq, Structural)]
pub enum DragKind {
    VERTICAL,
    HORIZONTAL,
}

/// The positions of the two dividers of the main layout, in percent:
/// `horizontal` splits the file list from the rest, `vertical` splits the
/// editor from the shell.
#[derive(Clone, Copy, Debug, PartialEq, Eq, Structural)]
pub struct Split {
    pub horizontal: u16,
    pub vertical: u16,
}

/// `value` percent of `total`, rounded down.
pub open spec fn percent_of(value: u16, total: u16) -> int {
    (value * total) / 100
}

pub open spec fn saturating_sub_u16(a: int, b: int) -> int {
    if a >= b { a - b } else { 0 }
}

pub open spec fn saturating_add_u16(a: int, b: int) -> int {
    if a + b <= u16::MAX { a + b } else { u16::MAX as int }
}

/// 100 minus `p`, floored at zero.
pub open spec fn complement_percent(p: u16) -> u16 {
    saturating_sub_u16(100, p as int) as u16
}

/// The band around the file list divider.
pub open spec fn horizontal_hitbox(split: Split, frame: Rect) -> Rect {
    let center = percent_of(split.horizontal, frame.width);
    let x = saturating_sub_u16(center, 2);
    Rect {
        x: x as u16,
        y: frame.y,
        width: (saturating_add_u16(center, 2) - x) as u16,
        height: frame.height,
    }
}

/// The band around the editor/shell divider.
pub open spec fn vertical_hitbox(split: Split, frame: Rect) -> Rect {
    let center = percent_of(split.vertical, frame.height);
    let y = saturating_sub_u16(center, 3);
    let x = saturating_add_u16(frame.x as int, percent_of(split.horizontal, frame.width));
    Rect {
        x: x as u16,
        y: y as u16,
        width: (frame.width - x) as u16,
        height: (saturating_add_u16(center, 3) - y) as u16,
    }
}

/// The file list divider's band can be computed for this frame.
pub open spec fn horizontal_hitbox_defined(split: Split, frame: Rect) -> bool {
    split.horizontal * frame.width <= u16::MAX
}

/// The editor/shell divider's band can be computed for this frame.
pub open spec fn vertical_hitbox_defined(split: Split, frame: Rect) -> bool {
    &&& split.vertical * frame.height <= u16::MAX
    &&& split.horizontal * frame.width <= u16::MAX
    &&& saturating_add_u16(frame.x as int, percent_of(split.horizontal, frame.width)) <= frame.width
}

impl Default for Split {
    fn default() -> (s: Split)
        ensures
            s.horizontal == 20,
            s.vertical == 80,
    {
        Split { horizontal: 20, vertical: 80 }
    }
}

impl Split {
    /// Whether the file list divider's band can be computed for `frame`.
    pub fn horizontal_hitbox_computable(&self, frame: &Rect) -> (r: bool)
        ensures
            r == horizontal_hitbox_defined(*self, *frame),
    {
        proof {
            vstd::arithmetic::mul::lemma_mul_upper_bound(self.horizontal as int, 65535, frame.width as int, 65535);
        }
        (self.horizontal as u64) * (frame.width as u64) <= 65535
    }

    /// Whether the editor/shell divider's band can be computed for `frame`.
    pub fn vertical_hitbox_computable(&self, frame: &Rect) -> (r: bool)
        ensures
            r == vertical_hitbox_defined(*self, *frame),
    {
        proof {
            vstd::arithmetic::mul::lemma_mul_upper_bound(self.horizontal as int, 65535, frame.width as int, 65535);
            vstd::arithmetic::mul::lemma_mul_upper_bound(self.vertical as int, 65535, frame.height as int, 65535);
        }
        let h = (self.horizontal as u64) * (frame.width as u64);
        let v = (self.vertical as u64) * (frame.height as u64);
        if h > 65535 || v > 65535 {
            return false;
        }
        let c = h / 100;
        let x = if (frame.x as u64) + c <= 65535 {
            (frame.x as u64) + c
        } else {
            65535
        };
        x <= frame.width as u64
    }

    /// The band around the divider between the file list and the rest,
    /// two cells to each side of it, across the whole height of the frame.
    pub fn get_horizontal_hitbox(&self, frame: &Rect) -> (r: Rect)
        requires
            horizontal_hitbox_defined(*self, *frame),
        ensures
            r == horizontal_hitbox(*self, *frame),
    {
        let tolerance: u16 = 2;
        let center = (self.horizontal * frame.width) / 100;
        let x = center.saturating_sub(tolerance);
        let width = center.saturating_add(tolerance) - x;
        let y = frame.y;
        let height = frame.height;
        Rect { x, y, width, height }
    }

    /// The band around the divider between the editor and the shell, three
    /// cells above and below it, from the file list divider to the right.
    pub fn get_vertical_split_hitbox(&self, frame: &Rect) -> (r: Rect)
        requires
            vertical_hitbox_defined(*self, *frame),
        ensures
            r == vertical_hitbox(*self, *frame),
    {
        let tolerance: u16 = 3;
        let center = (self.vertical * frame.height) / 100;
        let y = center.saturating_sub(tolerance);
        let height = center.saturating_add(tolerance) - y;
        let x = frame.x.saturating_add((self.horizontal * frame.width) / 100);
        let width = frame.width - x;
        Rect { x, y, width, height }
    }

    /// Moves the file list divider to the column of `point`.
    pub fn set_horizontal_percentage(&mut self, point: (u16, u16), frame: &Rect)
        requires
            frame.width > 0,
            point.0 * 100 <= u16::MAX,
        ensures
            final(self).horizontal == (point.0 * 100) / (frame.width as int),
            final(self).vertical == old(self).vertical,
    {
        self.horizontal = point.0 * 100 / frame.width;
    }

    /// Moves the editor/shell divider to the row of `point`.
    pub fn set_vertical_percentage(&mut self, point: (u16, u16), frame: &Rect)
        requires
            frame.height > 0,
            point.1 * 100 <= u16::MAX,
        ensures
            final(self).vertical == (point.1 * 100) / (frame.height as int),
            final(self).horizontal == old(self).horizontal,
    {
        self.vertical = point.1 * 100 / frame.height;
    }

    /// The widths of the file list and of the rest, in percent.
    pub fn get_horizontal_split_percentage(&self) -> (r: (u16, u16))
        ensures
            r == (self.horizontal, complement_percent(self.horizontal)),
    {
        let max_percent: u16 = 100;
        (self.horizontal, max_percent.saturating_sub(self.horizontal))
    }

    /// The heights of the editor and of the shell, in percent.
    pub fn get_vertical_split_percentage(&self) -> (r: (u16, u16))
        ensures
            r == (self.vertical, complement_percent(self.vertical)),
    {
        let max_percent: u16 = 100;
        (self.vertical, max_percent.saturating_sub(self.vertical))
    }
}

} // verus!
