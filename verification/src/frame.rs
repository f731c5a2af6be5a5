//! Geometry of a row-major pixel frame and the description of the window
//! that shows it.

use vstd::prelude::*;

verus! {

/// A frame has at least one pixel in each direction, and its pixel count is
/// addressable by a signed 32-bit index.
pub open spec fn valid_dimensions(width: int, height: int) -> bool {
    width > 0 && height > 0 && width * height <= i32::MAX
}

/// Column and row of the pixel at row-major position `index`.
pub open spec fn spec_pixel_coords(index: int, width: int) -> (int, int) {
    (index % width, index / width)
}

/// Row-major position of the pixel in column `x` of row `y`.
pub open spec fn spec_pixel_index(x: int, y: int, width: int) -> int {
    y * width + x
}

/// Number of pixels of a `width` by `height` frame, or `None` when the
/// dimensions are not those of a frame.
pub fn pixel_count(width: i32, height: i32) -> (count: Option<usize>)
    ensures
        count.is_some() <==> valid_dimensions(width as int, height as int),
        count matches Some(n) ==> n as int == width * height,
{
    if width <= 0 || height <= 0 {
        return None;
    }
    match width.checked_mul(height) {
        Some(product) => {
            assert(product > 0) by (nonlinear_arith)
                requires
                    product == width * height,
                    width > 0,
                    height > 0,
            ;
            Some(product as usize)
        },
        None => None,
    }
}

/// Column and row of the pixel at row-major position `index` in a frame that
/// is `width` pixels wide.
pub fn pixel_coords(index: i32, width: i32) -> (coords: (i32, i32))
    requires
        index >= 0,
        width > 0,
    ensures
        (coords.0 as int, coords.1 as int) == spec_pixel_coords(index as int, width as int),
        0 <= coords.0 < width,
        0 <= coords.1 <= index,
        spec_pixel_index(coords.0 as int, coords.1 as int, width as int) == index,
{
    proof {
        lemma_index_of_coords(index as int, width as int);
        lemma_coords_in_row(index as int, width as int);
    }
    (index % width, index / width)
}

/// Every position decomposes into a column inside the row and a row that
/// does not exceed the position.
pub proof fn lemma_coords_in_row(index: int, width: int)
    requires
        index >= 0,
        width > 0,
    ensures
        0 <= spec_pixel_coords(index, width).0 < width,
        0 <= spec_pixel_coords(index, width).1 <= index,
{
    assert(0 <= index % width < width && 0 <= index / width <= index) by (nonlinear_arith)
        requires
            index >= 0,
            width > 0,
    ;
}

/// Every position below `width * height` lies in a row of the frame.
pub proof fn lemma_coords_in_frame(index: int, width: int, height: int)
    requires
        width > 0,
        height > 0,
        0 <= index < width * height,
    ensures
        0 <= spec_pixel_coords(index, width).0 < width,
        0 <= spec_pixel_coords(index, width).1 < height,
{
    lemma_coords_in_row(index, width);
    lemma_index_of_coords(index, width);
    let y = index / width;
    let x = index % width;
    assert(y < height) by (nonlinear_arith)
        requires
            y * width + x == index,
            index < width * height,
            x >= 0,
            width > 0,
    ;
}

/// Recomposing the column and row of a position gives the position back.
pub proof fn lemma_index_of_coords(index: int, width: int)
    requires
        width > 0,
    ensures
        spec_pixel_index(
            spec_pixel_coords(index, width).0,
            spec_pixel_coords(index, width).1,
            width,
        ) == index,
{
    assert((index / width) * width + index % width == index) by (nonlinear_arith)
        requires
            width > 0,
    ;
}

/// Decomposing the position of a column and row gives both back, and the
/// position lies in the frame when the row does.
pub proof fn lemma_coords_of_index(x: int, y: int, width: int, height: int)
    requires
        0 <= x < width,
        0 <= y < height,
    ensures
        0 <= spec_pixel_index(x, y, width) < width * height,
        spec_pixel_coords(spec_pixel_index(x, y, width), width) == (x, y),
{
    let index = y * width + x;
    assert(0 <= index < width * height) by (nonlinear_arith)
        requires
            index == y * width + x,
            0 <= x < width,
            0 <= y < height,
    ;
    vstd::arithmetic::div_mod::lemma_fundamental_div_mod_converse(index, width, y, x);
}

/// Two positions with the same column and row are the same position.
pub proof fn lemma_coords_injective(first: int, second: int, width: int)
    requires
        width > 0,
        spec_pixel_coords(first, width) == spec_pixel_coords(second, width),
    ensures
        first == second,
{
    lemma_index_of_coords(first, width);
    lemma_index_of_coords(second, width);
}

/// Decomposition into column and row is a bijection between the positions
/// of a frame and its cells: every position has a cell, no two positions
/// share one, and every cell belongs to a position.
pub proof fn lemma_coords_bijection(width: int, height: int)
    requires
        width > 0,
        height > 0,
    ensures
        forall|index: int|
            0 <= index < width * height ==> {
                &&& 0 <= (#[trigger] spec_pixel_coords(index, width)).0 < width
                &&& 0 <= spec_pixel_coords(index, width).1 < height
            },
        forall|first: int, second: int|
            0 <= first < width * height && 0 <= second < width * height
                && #[trigger] spec_pixel_coords(first, width) == #[trigger] spec_pixel_coords(
                second,
                width,
            ) ==> first == second,
        forall|x: int, y: int|
            0 <= x < width && 0 <= y < height ==> {
                &&& 0 <= #[trigger] spec_pixel_index(x, y, width) < width * height
                &&& spec_pixel_coords(spec_pixel_index(x, y, width), width) == (x, y)
            },
{
    assert forall|index: int| 0 <= index < width * height implies {
        &&& 0 <= (#[trigger] spec_pixel_coords(index, width)).0 < width
        &&& 0 <= spec_pixel_coords(index, width).1 < height
    } by {
        lemma_coords_in_frame(index, width, height);
    }
    assert forall|first: int, second: int|
        0 <= first < width * height && 0 <= second < width * height
            && #[trigger] spec_pixel_coords(first, width) == #[trigger] spec_pixel_coords(
            second,
            width,
        ) implies first == second by {
        lemma_coords_injective(first, second, width);
    }
    assert forall|x: int, y: int| 0 <= x < width && 0 <= y < height implies {
        &&& 0 <= #[trigger] spec_pixel_index(x, y, width) < width * height
        &&& spec_pixel_coords(spec_pixel_index(x, y, width), width) == (x, y)
    } by {
        lemma_coords_of_index(x, y, width, height);
    }
}

/// What a window needs to be opened and shown: its size in pixels, its title
/// and the row-major buffer of packed pixels that is drawn into it.
pub struct WindowInfo {
    pub width: i32,
    pub height: i32,
    pub title: String,
    pub buffer: Vec<u32>,
}

impl WindowInfo {
    /// The dimensions are those of a frame and the buffer holds exactly one
    /// packed pixel for each position.
    pub open spec fn well_formed(&self) -> bool {
        &&& valid_dimensions(self.width as int, self.height as int)
        &&& self.buffer@.len() == self.width * self.height
    }

    /// A window description whose buffer is all zero, or `None` when the
    /// dimensions are not those of a frame.
    pub fn blank(width: i32, height: i32, title: String) -> (info: Option<WindowInfo>)
        ensures
            info.is_some() <==> valid_dimensions(width as int, height as int),
            info matches Some(w) ==> {
                &&& w.well_formed()
                &&& w.width == width
                &&& w.height == height
                &&& w.title == title
                &&& forall|i: int| 0 <= i < w.buffer@.len() ==> w.buffer@[i] == 0
            },
    {
        match pixel_count(width, height) {
            Some(n) => {
                let buffer: Vec<u32> = vec![0u32; n];
                Some(WindowInfo { width, height, title, buffer })
            },
            None => None,
        }
    }

    /// Whether the description is well formed.
    pub fn is_well_formed(&self) -> (ok: bool)
        ensures
            ok == self.well_formed(),
    {
        match pixel_count(self.width, self.height) {
            Some(n) => self.buffer.len() == n,
            None => false,
        }
    }
}

} // verus!
