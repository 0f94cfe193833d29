//! Packing of the grid cells into one rectangle per latitude band.
//!
//! Faces `(lat, 0)` and `(lat, 1)` fill the lower half of band `lat`'s
//! parallelogram, faces `(lat, 2)` and `(lat, 3)` its upper half. A row of the
//! rectangle holds the cells of three half-rows of the triangle grid, which is
//! why the cube components are resampled by 2 and 3.

use vstd::prelude::*;
use crate::floor_div::{div_floor, trunc_div, trunc_rem};
use crate::triangle::{coord_limit, TriangleCoordinate, TriangleModel};

verus! {

/// The mathematical value of a `ParallelogramCoordinate`.
pub struct ParallelogramModel {
    pub gp: int,
    pub x: int,
    pub y: int,
    pub lat: int,
}

/// Columns of one band's rectangle.
pub open spec fn width_of(gp: int) -> int {
    gp / 2 * 3 + gp % 2
}

/// Rows of one band's rectangle.
pub open spec fn height_of(gp: int) -> int {
    gp * 4
}

/// Cells that one band holds apart from the two poles.
pub open spec fn area_of(gp: int) -> int {
    gp * gp * 6
}

/// Cells of the whole planet: five bands and the two poles, each stored once.
pub open spec fn field_count(gp: int) -> int {
    5 * area_of(gp) + 2
}

/// Subdivisions for which every index of the planet fits in `usize`.
pub open spec fn gp_fits_memory(gp: int) -> bool {
    &&& 1 <= gp
    &&& 64 * gp <= coord_limit()
    &&& 8 * area_of(gp) <= usize::MAX
}

/// Where `t` goes in its band's rectangle.
pub open spec fn packed(t: TriangleModel) -> ParallelogramModel {
    let g3 = t.g3();
    let r0 = if t.lon % 2 == 1 { g3 - t.c0 } else { t.c0 };
    let r1a = if t.lon % 2 == 1 { g3 - t.c1 } else { t.c1 };
    let r1 = if t.lon >= 2 { r1a + g3 } else { r1a };
    ParallelogramModel { gp: t.gp, x: r0 / 2, y: (r1 * 2 + trunc_rem(r0, 2)) / 3, lat: t.lat }
}

/// The triangle coordinate of the cell at `p` in its band's rectangle; to the
/// right of and above the band it lies past the band's faces, for `normalize`
/// to bring back.
pub open spec fn unpacked(p: ParallelogramModel) -> TriangleModel {
    let (g, x, y) = (p.gp, p.x, p.y);
    let lon = if y > g * 4 - trunc_div(x + 2, 3) - x - 1 {
        3int
    } else if y >= g * 2 {
        2int
    } else if y > g * 2 - (x - trunc_div(x, 3)) * 2 {
        1int
    } else {
        0int
    };
    let odd = (x + y - x / 3) % 2;
    let c0a = x * 2 + odd;
    let c1a = y * 3 / 2 + if x % 3 >= 1 + odd {
        1int
    } else {
        0int
    };
    let c1b = if lon >= 2 {
        c1a - 3 * g
    } else {
        c1a
    };
    let c0 = if lon % 2 == 1 {
        3 * g - c0a
    } else {
        c0a
    };
    let c1 = if lon % 2 == 1 {
        3 * g - c1b
    } else {
        c1b
    };
    TriangleModel { gp: g, c0, c1, c2: 3 * g - c0 - c1, lat: p.lat, lon }
}

impl ParallelogramModel {
    /// Small enough for `unpacked` to be computed in `isize`.
    pub open spec fn fits(self) -> bool {
        &&& 1 <= self.gp
        &&& 3 * self.gp <= coord_limit()
        &&& -coord_limit() <= self.x <= coord_limit()
        &&& -coord_limit() <= self.y <= coord_limit()
    }

    /// The south pole, shared by all bands.
    pub open spec fn is_south_pole(self) -> bool {
        self.x == 0 && self.y == 0
    }

    /// The north pole, shared by all bands.
    pub open spec fn is_north_pole(self) -> bool {
        self.x == width_of(self.gp) && self.y == height_of(self.gp)
    }

    /// Position in the array of all fields: the band's block, then row by
    /// row; with an odd `gp` the rows alternate between two widths.
    pub open spec fn index(self) -> int {
        if self.is_south_pole() {
            0
        } else if self.is_north_pole() {
            area_of(self.gp) * 5 + 1
        } else {
            self.lat * area_of(self.gp) + self.y * width_of(self.gp) + self.x + self.y % 2 + self.y
                / 2 * (self.gp % 2)
        }
    }

    /// Inside the rectangle of a band of a planet whose indices fit in memory.
    pub open spec fn in_band(self) -> bool {
        &&& gp_fits_memory(self.gp)
        &&& 0 <= self.lat < 5
        &&& 0 <= self.x <= width_of(self.gp)
        &&& 0 <= self.y <= height_of(self.gp)
    }
}

/// A position in the packed rectangle of one latitude band.
#[derive(Debug, PartialEq, Eq, Clone, Copy)]
pub struct ParallelogramCoordinate {
    pub gp_index: usize,
    pub rect_coord: [isize; 2],
    pub parallelogram_latitude: u8,
}

impl View for ParallelogramCoordinate {
    type V = ParallelogramModel;

    open spec fn view(&self) -> ParallelogramModel {
        ParallelogramModel {
            gp: self.gp_index as int,
            x: self.rect_coord[0] as int,
            y: self.rect_coord[1] as int,
            lat: self.parallelogram_latitude as int,
        }
    }
}

impl ParallelogramCoordinate {
    /// Columns of one band's rectangle.
    pub fn parallelogram_width(gp_index: usize) -> (r: usize)
        requires
            gp_index <= usize::MAX / 2,
        ensures
            r as int == width_of(gp_index as int),
    {
        gp_index / 2 * 3 + gp_index % 2
    }

    /// Rows of one band's rectangle.
    pub fn parallelogram_height(gp_index: usize) -> (r: usize)
        requires
            gp_index <= usize::MAX / 4,
        ensures
            r as int == height_of(gp_index as int),
    {
        gp_index * 4
    }

    /// Cells of one band, apart from the two poles.
    pub fn parallelogram_area(gp_index: usize) -> (r: usize)
        requires
            area_of(gp_index as int) <= usize::MAX,
        ensures
            r as int == area_of(gp_index as int),
    {
        proof {
            assert(gp_index * gp_index * 6 <= usize::MAX);
            assert(gp_index * gp_index <= gp_index * gp_index * 6) by (nonlinear_arith);
        }
        gp_index * gp_index * 6
    }

    /// A coordinate from its parts, as given.
    pub fn new(gp_index: usize, rect_coord: [isize; 2], parallelogram_latitude: u8) -> (r: Self)
        ensures
            r.gp_index == gp_index,
            r.rect_coord == rect_coord,
            r.parallelogram_latitude == parallelogram_latitude,
    {
        Self { gp_index, rect_coord, parallelogram_latitude }
    }

    /// The place of `triangle_coordinate` in its band's rectangle.
    pub fn from_triangle_coordinate(triangle_coordinate: &TriangleCoordinate) -> (r: Self)
        requires
            3 * triangle_coordinate.gp_index <= coord_limit(),
            triangle_coordinate@.components_within(coord_limit()),
        ensures
            r@ == packed(triangle_coordinate@),
    {
        let g3: isize = 3 * triangle_coordinate.gp_index as isize;
        let lon = triangle_coordinate.triangle_longitude;
        proof {
            assert((lon & 1) == 1 <==> lon % 2 == 1) by (bit_vector);
        }
        let mut x: isize = triangle_coordinate.cube_coord[0];
        let mut y: isize = triangle_coordinate.cube_coord[1];
        if (lon & 1) == 1 {
            x = g3 - x;
            y = g3 - y;
        }
        if lon >= 2 {
            y += g3;
        }
        y = y * 2 + x % 2;
        let rect_coord = [div_floor(x, 2), div_floor(y, 3)];
        Self {
            gp_index: triangle_coordinate.gp_index,
            rect_coord,
            parallelogram_latitude: triangle_coordinate.triangle_latitude,
        }
    }

    /// Position of this coordinate in the array of all fields.
    pub fn index_in_total(&self) -> (r: usize)
        requires
            self@.in_band(),
        ensures
            r as int == self@.index(),
    {
        let width = Self::parallelogram_width(self.gp_index);
        let height = Self::parallelogram_height(self.gp_index);
        let area = Self::parallelogram_area(self.gp_index);
        let x = self.rect_coord[0];
        let y = self.rect_coord[1];
        if x == 0 && y == 0 {
            return 0;  // south pole
        } else if x as usize == width && y as usize == height {
            return area * 5 + 1;  // north pole
        }
        let (xu, yu) = (x as usize, y as usize);
        proof {
            let g = self.gp_index as int;
            assert(yu * width <= height * width) by (nonlinear_arith)
                requires yu <= height;
            assert(height * width <= area) by (nonlinear_arith)
                requires height == g * 4, width == g / 2 * 3 + g % 2, area == g * g * 6, g >= 1;
            assert(yu / 2 * (g % 2) <= yu) by (nonlinear_arith);
            assert(self.parallelogram_latitude * area <= 4 * area) by (nonlinear_arith)
                requires self.parallelogram_latitude < 5;
        }
        self.parallelogram_latitude as usize * area + yu * width + xu + yu % 2 + yu / 2 * (
        self.gp_index % 2)
    }
}

} // verus!
