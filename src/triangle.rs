//! Triangle ("cube") coordinates on the twenty faces of the icosahedron.
//!
//! Faces are numbered by `triangle_latitude` (five bands around the axis) and
//! `triangle_longitude` (four rows from south to north):
//!
//! ```text
//!    *     *     *     *     *       north pole (vertex 11)
//!   / \   / \   / \   / \   / \      row 3
//!  *-----*-----*-----*-----*-----*   northern ring (vertices 6..=10)
//!   \   / \   / \   / \   / \   /    rows 2 and 1
//!    *-----*-----*-----*-----*-----* southern ring (vertices 1..=5)
//!     \   / \   / \   / \   / \   /  row 0
//!      *     *     *     *     *     south pole (vertex 0)
//! ```
//!
//! A coordinate holds three components that always add up to
//! `3 * gp_index`; component `k` is `3 * gp_index` at the face's corner `k`.
//! Grid cells are the points whose three components agree modulo 3.

use vstd::prelude::*;
use crate::floor_div::{div_floor, mod_floor};
use crate::parallelogram::{unpacked, ParallelogramCoordinate};

verus! {

/// Bound on `3 * gp_index` and on the size of each component of a valid
/// coordinate, so that every sum the face transitions form fits in `isize`.
pub open spec fn coord_limit() -> int {
    isize::MAX as int / 8
}

/// The mathematical value of a `TriangleCoordinate`.
pub struct TriangleModel {
    pub gp: int,
    pub c0: int,
    pub c1: int,
    pub c2: int,
    pub lat: int,
    pub lon: int,
}

impl TriangleModel {
    pub open spec fn g3(self) -> int {
        3 * self.gp
    }

    pub open spec fn comp(self, k: int) -> int {
        if k == 0 {
            self.c0
        } else if k == 1 {
            self.c1
        } else {
            self.c2
        }
    }

    /// The same face with other components.
    pub open spec fn at(self, c0: int, c1: int, c2: int) -> TriangleModel {
        TriangleModel { c0, c1, c2, ..self }
    }

    /// The same components on another face.
    pub open spec fn on(self, lat: int, lon: int) -> TriangleModel {
        TriangleModel { lat, lon, ..self }
    }

    /// Latitude `k` bands further east, wrapping around.
    pub open spec fn lat_plus(self, k: int) -> int {
        (self.lat + k) % 5
    }

    pub open spec fn sum_holds(self) -> bool {
        self.c0 + self.c1 + self.c2 == self.g3()
    }

    pub open spec fn components_within(self, bound: int) -> bool {
        &&& -bound <= self.c0 <= bound
        &&& -bound <= self.c1 <= bound
        &&& -bound <= self.c2 <= bound
    }

    /// What `normalize` accepts: a face that exists, the sum invariant, and
    /// components small enough for the transitions to be computed.
    pub open spec fn normalizable(self) -> bool {
        &&& 0 <= self.lat < 5
        &&& 0 <= self.lon < 4
        &&& 1 <= self.gp
        &&& 3 * self.gp <= coord_limit()
        &&& self.sum_holds()
        &&& self.components_within(2 * coord_limit())
    }

    /// A coordinate of a face of a planet: normalizable, with each component
    /// within half of what `normalize` accepts, so that a step still fits.
    pub open spec fn valid(self) -> bool {
        &&& self.normalizable()
        &&& self.components_within(coord_limit())
    }

    /// The canonical region of each face: the face with those of its edges
    /// and corners that a neighbouring face owns taken away, so that each cell
    /// has one canonical coordinate. The south pole belongs to face (0, 0) and
    /// the north pole to face (0, 3).
    pub open spec fn is_canonical(self) -> bool {
        if self.lon == 0 {
            (self.c0 >= 1 && self.c1 >= 0 && self.c2 >= 0) || (self.lat == 0 && self.c0 == 0
                && self.c1 == 0 && self.c2 == self.g3())
        } else if self.lon == 1 {
            self.c0 >= 0 && self.c1 >= 1 && self.c2 >= 1
        } else if self.lon == 2 {
            self.c0 >= 1 && self.c1 >= 0 && self.c2 >= 1
        } else {
            (self.c0 >= 0 && self.c1 >= 1 && self.c2 >= 0) || (self.lat == 0 && self.c0 == 0
                && self.c1 == 0 && self.c2 == self.g3())
        }
    }

    /// A grid cell: its components agree modulo 3.
    pub open spec fn on_lattice(self) -> bool {
        &&& (self.c0 - self.c1) % 3 == 0
        &&& (self.c1 - self.c2) % 3 == 0
    }

    /// One cell of the grid, in canonical form.
    pub open spec fn is_cell(self) -> bool {
        &&& self.valid()
        &&& self.on_lattice()
        &&& self.is_canonical()
    }

    /// Whether a component equals `3 * gp`: the coordinate is a vertex of the
    /// icosahedron.
    pub open spec fn is_pole(self) -> bool {
        self.c0 == self.g3() || self.c1 == self.g3() || self.c2 == self.g3()
    }

    /// One transition of a coordinate that is not canonical: a pole is moved to
    /// its canonical face; otherwise the coordinate is reflected across the
    /// border it crossed onto the face beyond (or, far past a corner, placed on
    /// the cell next to that corner).
    pub open spec fn step(self) -> TriangleModel {
        let g3 = self.g3();
        let (c0, c1, c2) = (self.c0, self.c1, self.c2);
        if self.lon == 3 {
            if c2 == g3 {
                self.at(0, 0, g3).on(0, 3)
            } else if c2 < 0 {
                if c1 > g3 {
                    self.at(1, 1, g3 - 2).on(self.lat, 1)
                } else {
                    self.at(c1 + c2, c0 + c2, -c2).on(self.lat, 2)
                }
            } else if c0 < 0 {
                if c1 > g3 {
                    self.at(1, g3 - 2, 1).on(self.lat_plus(1), 2)
                } else if c2 > g3 {
                    self.at(1, 1, g3 - 2).on(self.lat_plus(2), 3)
                } else {
                    self.at(c1 + c0, -c0, c2 + c0).on(self.lat_plus(1), 3)
                }
            } else if c2 > g3 {
                self.at(1, 1, g3 - 2).on(self.lat_plus(3), 3)
            } else {
                self.at(-c1, c0 + c1, c2 + c1).on(self.lat_plus(4), 3)
            }
        } else if self.lon == 2 {
            if c1 == g3 {
                self.at(0, g3, 0).on(self.lat_plus(4), 3)
            } else if c2 == g3 {
                self.at(g3, 0, 0).on(self.lat_plus(4), 0)
            } else if c0 < 1 {
                self.at(-c0, c2 + c0, c1 + c0).on(self.lat_plus(4), 1)
            } else if c1 < 0 {
                self.at(c2 + c1, -c1, c0 + c1).on(self.lat, 1)
            } else {
                self.at(c1 + c2, c0 + c2, -c2).on(self.lat, 3)
            }
        } else if self.lon == 1 {
            if c0 == g3 {
                self.at(g3, 0, 0).on(self.lat_plus(4), 0)
            } else if c2 == g3 {
                self.at(0, g3, 0).on(self.lat, 3)
            } else if c0 < 0 {
                self.at(-c0, c2 + c0, c1 + c0).on(self.lat_plus(1), 2)
            } else if c1 < 1 {
                self.at(c2 + c1, -c1, c0 + c1).on(self.lat, 2)
            } else {
                self.at(c1 + c2, c0 + c2, -c2).on(self.lat, 0)
            }
        } else {
            if c2 == g3 {
                self.at(0, 0, g3).on(0, 0)
            } else if c2 < 0 {
                if c0 > g3 {
                    self.at(1, 1, g3 - 2).on(self.lat_plus(1), 2)
                } else {
                    self.at(c1 + c2, c0 + c2, -c2).on(self.lat, 1)
                }
            } else if c0 < 1 {
                if c2 > g3 {
                    self.at(1, 1, g3 - 2).on(self.lat_plus(3), 0)
                } else {
                    self.at(c1 + c0, -c0, c2 + c0).on(self.lat_plus(4), 0)
                }
            } else if c0 > g3 {
                self.at(g3 - 2, 1, 1).on(self.lat_plus(1), 1)
            } else if c2 > g3 {
                self.at(1, 1, g3 - 2).on(self.lat_plus(2), 0)
            } else {
                self.at(-c1, c0 + c1, c2 + c1).on(self.lat_plus(1), 0)
            }
        }
    }

    /// The three vertices of the icosahedron at the corners of this face, in
    /// the order of the components.
    pub open spec fn pole(self, k: int) -> int {
        let (l, l1) = (self.lat, self.lat_plus(1));
        if self.lon == 3 {
            seq![6 + l, 6 + l1, 11int][k]
        } else if self.lon == 2 {
            seq![6 + l1, 6 + l, 1 + l][k]
        } else if self.lon == 1 {
            seq![1 + l, 1 + l1, 6 + l1][k]
        } else {
            seq![1 + l1, 1 + l, 0int][k]
        }
    }

    /// One raw step in direction `d`; faces of odd longitude lie mirrored, so
    /// the step is reversed there.
    pub open spec fn moved(self, d: Direction) -> TriangleModel {
        if self.lon % 2 == 1 {
            self.at(self.c0 - d.delta(0), self.c1 - d.delta(1), self.c2 - d.delta(2))
        } else {
            self.at(self.c0 + d.delta(0), self.c1 + d.delta(1), self.c2 + d.delta(2))
        }
    }

    /// What one call of `navigate` leaves.
    pub open spec fn navigated(self, d: Direction) -> TriangleModel {
        self.moved(d).normalized()
    }

    /// What one call of `normalize` leaves: the coordinate itself where it is
    /// canonical, its transition otherwise.
    pub open spec fn normalized(self) -> TriangleModel {
        if self.is_canonical() {
            self
        } else {
            self.step()
        }
    }
}

/// One of the six steps along the three axes of a face.
#[derive(Debug, PartialEq, Eq, Clone, Copy)]
pub enum Direction {
    NX,
    PX,
    NY,
    PY,
    NZ,
    PZ,
}

impl Direction {
    /// Change of component `k` by one step on a face of even longitude.
    pub open spec fn delta(self, k: int) -> int {
        let d = match self {
            Direction::NX => seq![-2int, 1, 1],
            Direction::PX => seq![2int, -1, -1],
            Direction::NY => seq![1int, -2, 1],
            Direction::PY => seq![-1int, 2, -1],
            Direction::NZ => seq![1int, 1, -2],
            Direction::PZ => seq![-1int, -1, 2],
        };
        d[k]
    }

    /// The step that undoes this one on the same face.
    pub open spec fn opposite(self) -> Direction {
        match self {
            Direction::NX => Direction::PX,
            Direction::PX => Direction::NX,
            Direction::NY => Direction::PY,
            Direction::PY => Direction::NY,
            Direction::NZ => Direction::PZ,
            Direction::PZ => Direction::NZ,
        }
    }
}

/// A location on one face of the subdivided icosahedron.
#[derive(Debug, PartialEq, Eq, Clone, Copy)]
pub struct TriangleCoordinate {
    pub gp_index: usize,
    pub cube_coord: [isize; 3],
    pub triangle_latitude: u8,
    pub triangle_longitude: u8,
}

impl View for TriangleCoordinate {
    type V = TriangleModel;

    open spec fn view(&self) -> TriangleModel {
        TriangleModel {
            gp: self.gp_index as int,
            c0: self.cube_coord[0] as int,
            c1: self.cube_coord[1] as int,
            c2: self.cube_coord[2] as int,
            lat: self.triangle_latitude as int,
            lon: self.triangle_longitude as int,
        }
    }
}

impl TriangleCoordinate {
    /// The pairwise differences `(c1 - c2, c2 - c0, c0 - c1)` of a cube
    /// coordinate; on coordinates that add up to zero this is a quarter turn,
    /// scaled by the square root of 3.
    pub fn rotate_cube_coord(cube_coord: [isize; 3]) -> (r: [isize; 3])
        requires
            isize::MIN <= cube_coord[1] - cube_coord[2] <= isize::MAX,
            isize::MIN <= cube_coord[2] - cube_coord[0] <= isize::MAX,
            isize::MIN <= cube_coord[0] - cube_coord[1] <= isize::MAX,
        ensures
            r[0] == cube_coord[1] - cube_coord[2],
            r[1] == cube_coord[2] - cube_coord[0],
            r[2] == cube_coord[0] - cube_coord[1],
    {
        [cube_coord[1] - cube_coord[2], cube_coord[2] - cube_coord[0], cube_coord[0] - cube_coord[1]]
    }

    /// A coordinate from its parts, as given.
    pub fn new(gp_index: usize, cube_coord: [isize; 3], triangle_latitude: u8, triangle_longitude: u8) -> (r:
        Self)
        ensures
            r.gp_index == gp_index,
            r.cube_coord == cube_coord,
            r.triangle_latitude == triangle_latitude,
            r.triangle_longitude == triangle_longitude,
    {
        Self { gp_index, cube_coord, triangle_latitude, triangle_longitude }
    }

    /// The cell at a place of a band's rectangle (not normalized).
    pub fn from_parallelogram_coordinate(parallelogram_coordinate: &ParallelogramCoordinate) -> (r: Self)
        requires
            parallelogram_coordinate@.fits(),
        ensures
            r@ == unpacked(parallelogram_coordinate@),
            r@.sum_holds(),
    {
        let g: isize = parallelogram_coordinate.gp_index as isize;
        let x: isize = parallelogram_coordinate.rect_coord[0];
        let y: isize = parallelogram_coordinate.rect_coord[1];
        let triangle_longitude: u8 = if y > g * 4 - (x + 2) / 3 - x - 1 {
            3
        } else if y >= g * 2 {
            2
        } else if y > g * 2 - (x - x / 3) * 2 {
            1
        } else {
            0
        };
        let odd_row = mod_floor(x + y - div_floor(x, 3), 2);
        let mut c0: isize = x * 2 + odd_row;
        let mut c1: isize = div_floor(y * 3, 2) + if mod_floor(x, 3) >= 1 + odd_row {
            1
        } else {
            0
        };
        if triangle_longitude >= 2 {
            c1 -= 3 * g;
        }
        if triangle_longitude % 2 == 1 {
            c0 = 3 * g - c0;
            c1 = 3 * g - c1;
        }
        Self {
            gp_index: parallelogram_coordinate.gp_index,
            cube_coord: [c0, c1, 3 * g - c0 - c1],
            triangle_latitude: parallelogram_coordinate.parallelogram_latitude,
            triangle_longitude,
        }
    }

    /// The cell of face `(triangle_latitude, triangle_longitude)` given by the
    /// rounded differences of its barycentric weights scaled by `gp_index`
    /// (they add up to zero): they are turned into the face's cube frame and
    /// normalized once.
    pub fn from_rounded_barycentric(
        gp_index: usize,
        rounded: [isize; 3],
        triangle_latitude: u8,
        triangle_longitude: u8,
    ) -> (r: Self)
        requires
            1 <= gp_index,
            3 * gp_index <= coord_limit(),
            triangle_latitude < 5,
            triangle_longitude < 4,
            rounded[0] + rounded[1] + rounded[2] == 0,
            -coord_limit() / 2 <= rounded[0] <= coord_limit() / 2,
            -coord_limit() / 2 <= rounded[1] <= coord_limit() / 2,
            -coord_limit() / 2 <= rounded[2] <= coord_limit() / 2,
        ensures
            r@ == (TriangleModel {
                gp: gp_index as int,
                c0: gp_index - (rounded[1] - rounded[2]),
                c1: gp_index - (rounded[2] - rounded[0]),
                c2: gp_index - (rounded[0] - rounded[1]),
                lat: triangle_latitude as int,
                lon: triangle_longitude as int,
            }).normalized(),
            r@.sum_holds(),
    {
        let turned = Self::rotate_cube_coord(rounded);
        let g: isize = gp_index as isize;
        let mut triangle_coordinate = Self {
            gp_index,
            cube_coord: [g - turned[0], g - turned[1], g - turned[2]],
            triangle_latitude,
            triangle_longitude,
        };
        triangle_coordinate.normalize();
        triangle_coordinate
    }

    /// Moves a coordinate that lies outside its face's canonical region one
    /// transition toward it, and says whether anything changed. A canonical
    /// coordinate is left as it is.
    pub fn normalize(&mut self) -> (changed: bool)
        requires
            old(self)@.normalizable(),
        ensures
            changed == !old(self)@.is_canonical(),
            final(self)@ == old(self)@.normalized(),
            final(self).gp_index == old(self).gp_index,
            final(self)@.sum_holds(),
            0 <= final(self)@.lat < 5,
            0 <= final(self)@.lon < 4,
    {
        let g3: isize = 3 * self.gp_index as isize;
        let c = self.cube_coord;
        let lat = self.triangle_latitude;
        match self.triangle_longitude {
            3 => {
                if c[2] == g3 {
                    if lat == 0 && c[0] == 0 && c[1] == 0 {
                        false
                    } else {
                        self.cube_coord = [0, 0, g3];
                        self.triangle_latitude = 0;
                        true
                    }
                } else if c[2] < 0 {
                    if c[1] > g3 {
                        self.cube_coord = [1, 1, g3 - 2];
                        self.triangle_longitude = 1;
                    } else {
                        self.cube_coord = [c[1] + c[2], c[0] + c[2], -c[2]];
                        self.triangle_longitude = 2;
                    }
                    true
                } else if c[0] < 0 {
                    if c[1] > g3 {
                        self.cube_coord = [1, g3 - 2, 1];
                        self.triangle_latitude = (lat + 1) % 5;
                        self.triangle_longitude = 2;
                    } else if c[2] > g3 {
                        self.cube_coord = [1, 1, g3 - 2];
                        self.triangle_latitude = (lat + 2) % 5;
                    } else {
                        self.cube_coord = [c[1] + c[0], -c[0], c[2] + c[0]];
                        self.triangle_latitude = (lat + 1) % 5;
                    }
                    true
                } else if c[1] < 1 {
                    if c[2] > g3 {
                        self.cube_coord = [1, 1, g3 - 2];
                        self.triangle_latitude = (lat + 3) % 5;
                    } else {
                        self.cube_coord = [-c[1], c[0] + c[1], c[2] + c[1]];
                        self.triangle_latitude = (lat + 4) % 5;
                    }
                    true
                } else {
                    false
                }
            },
            2 => {
                if c[1] == g3 {
                    self.cube_coord = [0, g3, 0];
                    self.triangle_latitude = (lat + 4) % 5;
                    self.triangle_longitude = 3;
                    true
                } else if c[2] == g3 {
                    self.cube_coord = [g3, 0, 0];
                    self.triangle_latitude = (lat + 4) % 5;
                    self.triangle_longitude = 0;
                    true
                } else if c[0] < 1 {
                    self.cube_coord = [-c[0], c[2] + c[0], c[1] + c[0]];
                    self.triangle_latitude = (lat + 4) % 5;
                    self.triangle_longitude = 1;
                    true
                } else if c[1] < 0 {
                    self.cube_coord = [c[2] + c[1], -c[1], c[0] + c[1]];
                    self.triangle_longitude = 1;
                    true
                } else if c[2] < 1 {
                    self.cube_coord = [c[1] + c[2], c[0] + c[2], -c[2]];
                    self.triangle_longitude = 3;
                    true
                } else {
                    false
                }
            },
            1 => {
                if c[0] == g3 {
                    self.cube_coord = [g3, 0, 0];
                    self.triangle_latitude = (lat + 4) % 5;
                    self.triangle_longitude = 0;
                    true
                } else if c[2] == g3 {
                    self.cube_coord = [0, g3, 0];
                    self.triangle_longitude = 3;
                    true
                } else if c[0] < 0 {
                    self.cube_coord = [-c[0], c[2] + c[0], c[1] + c[0]];
                    self.triangle_latitude = (lat + 1) % 5;
                    self.triangle_longitude = 2;
                    true
                } else if c[1] < 1 {
                    self.cube_coord = [c[2] + c[1], -c[1], c[0] + c[1]];
                    self.triangle_longitude = 2;
                    true
                } else if c[2] < 1 {
                    self.cube_coord = [c[1] + c[2], c[0] + c[2], -c[2]];
                    self.triangle_longitude = 0;
                    true
                } else {
                    false
                }
            },
            _ => {
                if c[2] == g3 {
                    if lat == 0 && c[0] == 0 && c[1] == 0 {
                        false
                    } else {
                        self.cube_coord = [0, 0, g3];
                        self.triangle_latitude = 0;
                        true
                    }
                } else if c[2] < 0 {
                    if c[0] > g3 {
                        self.cube_coord = [1, 1, g3 - 2];
                        self.triangle_latitude = (lat + 1) % 5;
                        self.triangle_longitude = 2;
                    } else {
                        self.cube_coord = [c[1] + c[2], c[0] + c[2], -c[2]];
                        self.triangle_longitude = 1;
                    }
                    true
                } else if c[0] < 1 {
                    if c[2] > g3 {
                        self.cube_coord = [1, 1, g3 - 2];
                        self.triangle_latitude = (lat + 3) % 5;
                    } else {
                        self.cube_coord = [c[1] + c[0], -c[0], c[2] + c[0]];
                        self.triangle_latitude = (lat + 4) % 5;
                    }
                    true
                } else if c[1] < 0 {
                    if c[0] > g3 {
                        self.cube_coord = [g3 - 2, 1, 1];
                        self.triangle_latitude = (lat + 1) % 5;
                        self.triangle_longitude = 1;
                    } else if c[2] > g3 {
                        self.cube_coord = [1, 1, g3 - 2];
                        self.triangle_latitude = (lat + 2) % 5;
                    } else {
                        self.cube_coord = [-c[1], c[0] + c[1], c[2] + c[1]];
                        self.triangle_latitude = (lat + 1) % 5;
                    }
                    true
                } else {
                    false
                }
            },
        }
    }
    /// Moves one grid step in `direction`, then normalizes once, which lands on
    /// the neighbouring face where the step crosses a border.
    pub fn navigate(&mut self, direction: Direction)
        requires
            old(self)@.valid(),
        ensures
            final(self)@ == old(self)@.navigated(direction),
            final(self).gp_index == old(self).gp_index,
            final(self)@.sum_holds(),
    {
        let dir: [isize; 3] = match direction {
            Direction::NX => [-2, 1, 1],
            Direction::PX => [2, -1, -1],
            Direction::NY => [1, -2, 1],
            Direction::PY => [-1, 2, -1],
            Direction::NZ => [1, 1, -2],
            Direction::PZ => [-1, -1, 2],
        };
        let step: [isize; 3] = if self.triangle_longitude % 2 == 1 {
            [-dir[0], -dir[1], -dir[2]]
        } else {
            dir
        };
        let c = self.cube_coord;
        self.cube_coord = [c[0] + step[0], c[1] + step[1], c[2] + step[2]];
        proof {
            let m = old(self)@;
            assert(dir[0] == direction.delta(0) && dir[1] == direction.delta(1) && dir[2]
                == direction.delta(2));
            assert(self@ == m.moved(direction));
        }
        self.normalize();
    }

    /// The indices of the icosahedron vertices at this face's corners.
    pub fn pole_indices(&self) -> (r: [u8; 3])
        requires
            self.triangle_latitude < 5,
            self.triangle_longitude < 4,
        ensures
            r[0] as int == self@.pole(0),
            r[1] as int == self@.pole(1),
            r[2] as int == self@.pole(2),
    {
        let lat = self.triangle_latitude;
        match self.triangle_longitude {
            3 => [6 + lat, 6 + (lat + 1) % 5, 11],
            2 => [6 + (lat + 1) % 5, 6 + lat, 1 + lat],
            1 => [1 + lat, 1 + (lat + 1) % 5, 6 + (lat + 1) % 5],
            _ => [1 + (lat + 1) % 5, 1 + lat, 0],
        }
    }

    /// Whether this coordinate is a vertex of the icosahedron.
    pub fn is_pole(&self) -> (r: bool)
        requires
            3 * self.gp_index <= isize::MAX,
        ensures
            r == self@.is_pole(),
    {
        let g3: isize = self.gp_index as isize * 3;
        self.cube_coord[0] == g3 || self.cube_coord[1] == g3 || self.cube_coord[2] == g3
    }

}

} // verus!
