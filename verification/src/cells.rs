//! The cells of the screen: where they stand, and which of them painting an area can change.

use vstd::arithmetic::div_mod::lemma_fundamental_div_mod_converse;
use vstd::prelude::*;

use crate::screen::Rect;

verus! {

/// The area and the cells of a buffer, row by row.
pub struct Screen {
    pub area: Rect,
    pub cells: Seq<Seq<char>>,
}

impl Rect {
    /// Whether a position lies in the area.
    pub open spec fn holds(self, x: int, y: int) -> bool {
        self.x <= x < self.x + self.width && self.y <= y < self.y + self.height
    }

    /// Where a position stands in the area, counted row by row.
    pub open spec fn index(self, x: int, y: int) -> int {
        (y - self.y) * self.width + (x - self.x)
    }

    /// The column of the position that is counted as `i`.
    pub open spec fn column(self, i: int) -> int {
        self.x + i % (self.width as int)
    }

    /// The row of the position that is counted as `i`.
    pub open spec fn row(self, i: int) -> int {
        self.y + i / (self.width as int)
    }

    /// Whether no position lies in both areas.
    pub open spec fn apart(self, other: Rect) -> bool {
        forall|x: int, y: int| !(#[trigger] self.holds(x, y) && #[trigger] other.holds(x, y))
    }
}

impl Screen {
    /// Whether there is a cell for each position of the area, and none of them lies too far out.
    pub open spec fn valid(self) -> bool {
        self.area.bounded() && self.cells.len() == self.area.width * self.area.height
    }

    /// The cell at a position.
    pub open spec fn at(self, x: int, y: int) -> Seq<char> {
        self.cells[self.area.index(x, y)]
    }

    /// The cells of a part of the screen, row by row.
    pub open spec fn window(self, part: Rect) -> Seq<Seq<char>> {
        Seq::new(
            (part.width * part.height) as nat,
            |i: int| self.at(part.column(i), part.row(i)),
        )
    }

    /// The screen with other cells in a part of it.
    pub open spec fn patched(self, part: Rect, cells: Seq<Seq<char>>) -> Screen {
        Screen {
            area: self.area,
            cells: Seq::new(
                self.cells.len(),
                |i: int|
                    {
                        let x = self.area.column(i);
                        let y = self.area.row(i);
                        if part.holds(x, y) {
                            cells[part.index(x, y)]
                        } else {
                            self.cells[i]
                        }
                    },
            ),
        }
    }

    /// Whether two screens cover the same area and have the same cells outside a part of it.
    pub open spec fn same_outside(self, other: Screen, part: Rect) -> bool {
        &&& self.area == other.area
        &&& self.cells.len() == other.cells.len()
        &&& forall|x: int, y: int|
            self.area.holds(x, y) && !part.holds(x, y) ==> #[trigger] self.at(x, y) == other.at(
                x,
                y,
            )
    }
}

/// Counting a position and finding it again gives the position.
pub proof fn position_of_index(area: Rect, x: int, y: int)
    requires
        area.holds(x, y),
    ensures
        0 <= area.index(x, y) < area.width * area.height,
        area.column(area.index(x, y)) == x,
        area.row(area.index(x, y)) == y,
{
    let w = area.width as int;
    let dx = x - area.x;
    let dy = y - area.y;
    lemma_fundamental_div_mod_converse(dy * w + dx, w, dy, dx);
    assert(0 <= dy * w + dx < w * area.height) by (nonlinear_arith)
        requires
            0 <= dx < w,
            0 <= dy <= area.height - 1,
    ;
    assert(w * area.height == area.width * area.height);
}

/// Finding a position and counting it again gives what it was counted as.
pub proof fn index_of_position(area: Rect, i: int)
    requires
        0 <= i < area.width * area.height,
    ensures
        area.holds(area.column(i), area.row(i)),
        area.index(area.column(i), area.row(i)) == i,
{
    let w = area.width as int;
    let h = area.height as int;
    assert(w > 0) by (nonlinear_arith)
        requires
            0 <= i < w * h,
            0 <= w,
            0 <= h,
    ;
    vstd::arithmetic::div_mod::lemma_fundamental_div_mod(i, w);
    assert(0 <= i % w < w && 0 <= i / w < h) by (nonlinear_arith)
        requires
            0 <= i < w * h,
            w > 0,
    ;
    assert((i / w) * w == w * (i / w)) by (nonlinear_arith);
}

/// A patch shows inside its part, and nothing changes outside it.
pub proof fn patch_shows(screen: Screen, part: Rect, cells: Seq<Seq<char>>, x: int, y: int)
    requires
        screen.valid(),
        screen.area.holds(x, y),
    ensures
        screen.patched(part, cells).at(x, y) == if part.holds(x, y) {
            cells[part.index(x, y)]
        } else {
            screen.at(x, y)
        },
{
    position_of_index(screen.area, x, y);
}

/// A patch leaves the cells outside a part as they are where it lies in that part.
pub proof fn patch_stays_inside(screen: Screen, inner: Rect, cells: Seq<Seq<char>>, part: Rect)
    requires
        screen.valid(),
        inner.within(part),
    ensures
        screen.same_outside(screen.patched(inner, cells), part),
        screen.patched(inner, cells).valid(),
{
    let after = screen.patched(inner, cells);
    assert forall|x: int, y: int| screen.area.holds(x, y) && !part.holds(x, y) implies #[trigger]
        screen.at(x, y) == after.at(x, y) by {
        patch_shows(screen, inner, cells, x, y);
    }
}

/// Screens that are the same outside a part can be compared one after the other, and either way
/// round.
pub proof fn same_outside_chains(a: Screen, b: Screen, c: Screen, part: Rect)
    requires
        a.same_outside(b, part),
        b.same_outside(c, part),
    ensures
        a.same_outside(c, part),
        b.same_outside(a, part),
{
    assert forall|x: int, y: int| a.area.holds(x, y) && !part.holds(x, y) implies #[trigger] a.at(
        x,
        y,
    ) == c.at(x, y) by {
        assert(b.at(x, y) == c.at(x, y));
    }
    assert forall|x: int, y: int| b.area.holds(x, y) && !part.holds(x, y) implies #[trigger] b.at(
        x,
        y,
    ) == a.at(x, y) by {
        assert(a.at(x, y) == b.at(x, y));
    }
}

/// Screens that are the same outside a part are the same outside a larger one.
pub proof fn same_outside_widens(a: Screen, b: Screen, part: Rect, larger: Rect)
    requires
        a.same_outside(b, part),
        part.within(larger),
    ensures
        a.same_outside(b, larger),
{
    assert forall|x: int, y: int| a.area.holds(x, y) && !larger.holds(x, y) implies #[trigger] a.at(
        x,
        y,
    ) == b.at(x, y) by {
        assert(!part.holds(x, y));
    }
}

/// Screens that are the same outside a part look the same in any window apart from it.
pub proof fn same_window(a: Screen, b: Screen, part: Rect, window: Rect)
    requires
        a.same_outside(b, part),
        window.within(a.area),
        window.apart(part),
    ensures
        a.window(window) == b.window(window),
{
    assert forall|i: int| 0 <= i < a.window(window).len() implies a.window(window)[i] == b.window(
        window,
    )[i] by {
        index_of_position(window, i);
        let x = window.column(i);
        let y = window.row(i);
        assert(!part.holds(x, y));
        assert(a.at(x, y) == b.at(x, y));
    }
    assert(a.window(window) =~= b.window(window));
}

/// Screens that are the same outside a part stay so under the same patch.
pub proof fn same_patch(a: Screen, b: Screen, part: Rect, inner: Rect, cells: Seq<Seq<char>>)
    requires
        a.valid(),
        b.valid(),
        a.same_outside(b, part),
    ensures
        a.patched(inner, cells).same_outside(b.patched(inner, cells), part),
        a.patched(inner, cells).valid(),
        b.patched(inner, cells).valid(),
{
    let c = a.patched(inner, cells);
    let d = b.patched(inner, cells);
    assert forall|x: int, y: int| c.area.holds(x, y) && !part.holds(x, y) implies #[trigger] c.at(
        x,
        y,
    ) == d.at(x, y) by {
        patch_shows(a, inner, cells, x, y);
        patch_shows(b, inner, cells, x, y);
        assert(a.at(x, y) == b.at(x, y));
    }
}

/// A window shows the cells of its part, each in its place.
pub proof fn window_shows_its_part(screen: Screen, part: Rect, x: int, y: int)
    requires
        part.holds(x, y),
    ensures
        screen.window(part).len() == part.width * part.height,
        screen.window(part)[part.index(x, y)] == screen.at(x, y),
{
    position_of_index(part, x, y);
}

/// A screen is valid exactly where its edges fit 16 bits and it has one cell for each position.
pub proof fn valid_screen_has_its_cells(screen: Screen)
    ensures
        screen.valid() <==> screen.area.x + screen.area.width <= 0xffff && screen.area.y
            + screen.area.height <= 0xffff && screen.cells.len() == screen.area.width
            * screen.area.height,
{
}

} // verus!
