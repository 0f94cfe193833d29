//! The per-field store of a planet and the texture image built from it.

use vstd::prelude::*;
use rand::rngs::SmallRng;
use rand::{Rng, SeedableRng};
use crate::parallelogram::{
    field_count, gp_fits_memory, height_of, packed, unpacked, width_of, ParallelogramCoordinate,
    ParallelogramModel,
};
use crate::packing_laws::{lemma_every_place_holds_a_cell, lemma_index_unique};
use crate::triangle::{coord_limit, TriangleCoordinate, TriangleModel};

verus! {

#[verifier::external_type_specification]
#[verifier::external_body]
pub struct ExSmallRng(SmallRng);

/// Relies on `SeedableRng::from_seed` for rand's `SmallRng`: a generator
/// whose stream the seed fixes (nothing about that stream is assumed).
#[verifier::external_body]
fn seeded_rng(seed: [u8; 16]) -> SmallRng {
    SmallRng::from_seed(seed)
}

/// Relies on `Rng::gen::<u8>`: some byte, drawn from the generator.
#[verifier::external_body]
fn random_byte(rng: &mut SmallRng) -> u8 {
    rng.gen::<u8>()
}

/// Kinds of terrain a field can hold.
pub const TERRAIN_KINDS: u8 = 5;

/// The application data of one grid cell: a terrain kind and three 4-bit
/// selection flags.
#[derive(Debug, Clone, Copy, Default)]
pub struct Field {
    terrain: u8,
    selection: (u8, u8, u8),
}

impl Field {
    pub closed spec fn spec_terrain(self) -> u8 {
        self.terrain
    }

    pub closed spec fn spec_selection(self) -> (u8, u8, u8) {
        self.selection
    }

    /// A terrain kind below `TERRAIN_KINDS` and selection values of four bits.
    pub open spec fn wf(self) -> bool {
        &&& self.spec_terrain() < TERRAIN_KINDS
        &&& self.spec_selection().0 < 16
        &&& self.spec_selection().1 < 16
        &&& self.spec_selection().2 < 16
    }

    /// The two bytes of this field in the texture: terrain in the low and the
    /// first selection value in the high nibble of the first, the other two
    /// selection values in the high and low nibble of the second.
    pub open spec fn texel(self) -> (u8, u8) {
        let (s0, s1, s2) = self.spec_selection();
        ((self.spec_terrain() + 16 * s0) as u8, (16 * s1 + s2) as u8)
    }

    pub fn new(terrain: u8, selection: (u8, u8, u8)) -> (r: Field)
        requires
            terrain < TERRAIN_KINDS,
            selection.0 < 16,
            selection.1 < 16,
            selection.2 < 16,
        ensures
            r.spec_terrain() == terrain,
            r.spec_selection() == selection,
            r.wf(),
    {
        Field { terrain, selection }
    }

    pub fn terrain(&self) -> (r: u8)
        ensures
            r == self.spec_terrain(),
    {
        self.terrain
    }

    pub fn selection(&self) -> (r: (u8, u8, u8))
        ensures
            r == self.spec_selection(),
    {
        self.selection
    }

    /// The two texture bytes of this field.
    pub fn encode(&self) -> (r: (u8, u8))
        requires
            self.wf(),
        ensures
            r == self.texel(),
    {
        let (t, s0, s1, s2) = (self.terrain, self.selection.0, self.selection.1, self.selection.2);
        proof {
            assert(t < 16 && s0 < 16 ==> (t | (s0 << 4u8)) == t + 16 * s0) by (bit_vector);
            assert(s1 < 16 && s2 < 16 ==> ((s1 << 4u8) | s2) == 16 * s1 + s2) by (bit_vector);
        }
        (t | (s0 << 4), (s1 << 4) | s2)
    }
}

/// A planet: its subdivision and one field per grid cell, stored in the order
/// of `ParallelogramCoordinate::index_in_total`.
pub struct Planet {
    pub gp_index: usize,
    fields: Vec<Field>,
}

/// Columns of one band's block in the texture: the rectangle with a border.
pub open spec fn block_width(gp: int) -> int {
    width_of(gp) + 3
}

/// Rows of the texture: the rectangle with a border.
pub open spec fn block_height(gp: int) -> int {
    height_of(gp) + 4
}

/// Columns of the texture: the blocks of the five bands side by side.
pub open spec fn texture_width(gp: int) -> int {
    5 * block_width(gp)
}

/// The cell whose data shows at column `x` of band `lat`'s block, row `y`:
/// the rectangle's own cell, or, on the border, the cell across the face edge
/// that `normalize` finds; three border texels next to the poles of a band
/// take the cell that borders them there instead.
pub open spec fn texel_source(gp: int, lat: int, x: int, y: int) -> ParallelogramModel {
    let p = ParallelogramModel { gp, x: x - 1, y: y - 2, lat };
    let t = unpacked(p);
    if t.is_canonical() {
        p
    } else {
        let n = t.step();
        let bw = block_width(gp);
        let g3 = 3 * gp;
        let m = if x == bw - 1 && y == gp * 2 + 1 {
            TriangleModel { c0: g3 - 2, c1: 1, c2: 1, lon: 3, ..n }
        } else if x == bw - 1 && y == 1 {
            TriangleModel { c0: g3 - 2, c1: 1, c2: 1, lon: 1, ..n }
        } else if x == bw - 2 && y == 1 {
            TriangleModel { c0: 1, c1: g3 - 2, c2: 1, lon: 0, ..n }
        } else {
            n
        };
        packed(m)
    }
}

impl Planet {
    pub closed spec fn spec_gp_index(self) -> usize {
        self.gp_index
    }

    pub closed spec fn spec_fields(self) -> Seq<Field> {
        self.fields@
    }

    /// One well-formed field per cell of a planet whose indices fit in memory.
    pub open spec fn wf(self) -> bool {
        &&& gp_fits_memory(self.spec_gp_index() as int)
        &&& self.spec_fields().len() == field_count(self.spec_gp_index() as int)
        &&& forall|i: int| 0 <= i < self.spec_fields().len() ==> (#[trigger] self.spec_fields()[i]).wf()
    }

    /// The texture bytes at column `x` of band `lat`'s block, row `y`; a
    /// border texel whose cell falls outside the store keeps the filler
    /// `(255, 255)`.
    pub open spec fn texel_at(self, lat: int, x: int, y: int) -> (u8, u8) {
        let src = texel_source(self.spec_gp_index() as int, lat, x, y);
        if src.in_band() && src.index() < self.spec_fields().len() {
            self.spec_fields()[src.index()].texel()
        } else {
            (255u8, 255u8)
        }
    }

    /// The texture bytes at position `i` of the image, row by row.
    pub open spec fn texel_of_pixel(self, i: int) -> (u8, u8) {
        let g = self.spec_gp_index() as int;
        let row = i / texture_width(g);
        let col = i % texture_width(g);
        self.texel_at(col / block_width(g), col % block_width(g), row)
    }

    /// A planet of subdivision `gp_index` whose fields get terrain from a
    /// generator with a fixed seed and no selection.
    pub fn new(gp_index: usize) -> (r: Planet)
        requires
            gp_fits_memory(gp_index as int),
        ensures
            r.wf(),
            r.spec_gp_index() == gp_index,
            forall|i: int| 0 <= i < r.spec_fields().len() ==> (#[trigger] r.spec_fields()[i]).spec_selection()
                == (0u8, 0u8, 0u8),
    {
        let count = ParallelogramCoordinate::parallelogram_area(gp_index) * 5 + 2;
        let mut rng = seeded_rng([0u8; 16]);
        let mut fields: Vec<Field> = Vec::new();
        while fields.len() < count
            invariant
                fields@.len() <= count,
                forall|i: int| 0 <= i < fields@.len() ==> (#[trigger] fields@[i]).wf(),
                forall|i: int| 0 <= i < fields@.len() ==> (#[trigger] fields@[i]).spec_selection() == (0u8, 0u8, 0u8),
            decreases count - fields@.len(),
        {
            let terrain = random_byte(&mut rng) % TERRAIN_KINDS;
            fields.push(Field { terrain, selection: (0, 0, 0) });
        }
        Planet { gp_index, fields }
    }

    /// The number of fields: one per grid cell.
    pub fn field_count(&self) -> (r: usize)
        ensures
            r == self.spec_fields().len(),
    {
        self.fields.len()
    }

    /// The field stored at `index`.
    pub fn field(&self, index: usize) -> (r: Field)
        requires
            index < self.spec_fields().len(),
        ensures
            r == self.spec_fields()[index as int],
    {
        self.fields[index]
    }

    /// Replaces the field stored at `index`.
    pub fn set_field(&mut self, index: usize, field: Field)
        requires
            old(self).wf(),
            index < old(self).spec_fields().len(),
            field.wf(),
        ensures
            final(self).wf(),
            final(self).spec_gp_index() == old(self).spec_gp_index(),
            final(self).spec_fields() == old(self).spec_fields().update(index as int, field),
    {
        self.fields.set(index, field);
    }


    /// The texture bytes of one texel; see `texel_at`.
    fn texel(&self, lat: u8, x: usize, y: usize) -> (r: (u8, u8))
        requires
            self.wf(),
            lat < 5,
            x < block_width(self.gp_index as int),
            y < block_height(self.gp_index as int),
        ensures
            r == self.texel_at(lat as int, x as int, y as int),
    {
        let g = self.gp_index;
        let source = texel_source_coordinate(g, lat, x, y);
        let (px, py) = (source.rect_coord[0], source.rect_coord[1]);
        let width = ParallelogramCoordinate::parallelogram_width(g);
        let height = ParallelogramCoordinate::parallelogram_height(g);
        if 0 <= px && px as usize <= width && 0 <= py && py as usize <= height {
            let index = source.index_in_total();
            if index < self.fields.len() {
                return self.fields[index].encode();
            }
        }
        (255, 255)
    }

    /// The terrain and selection texture: for each row, the blocks of the five
    /// bands side by side, each the band's rectangle with a border of texels
    /// taken from the neighbouring faces.
    pub fn generate_terrain_and_selection_texture(&self) -> (pixels: Vec<(u8, u8)>)
        requires
            self.wf(),
        ensures
            pixels@.len() == texture_width(self.spec_gp_index() as int) * block_height(
                self.spec_gp_index() as int,
            ),
            forall|i: int| 0 <= i < pixels@.len() ==> #[trigger] pixels@[i] == self.texel_of_pixel(i),
    {
        let g = self.gp_index;
        let bw = ParallelogramCoordinate::parallelogram_width(g) + 3;
        let bh = ParallelogramCoordinate::parallelogram_height(g) + 4;
        let ghost tw = texture_width(g as int);
        let mut pixels: Vec<(u8, u8)> = Vec::new();
        let mut y: usize = 0;
        while y < bh
            invariant
                self.wf(),
                g == self.gp_index,
                bw == block_width(g as int),
                bh == block_height(g as int),
                tw == 5 * bw,
                y <= bh,
                pixels@.len() == y * tw,
                forall|i: int| 0 <= i < pixels@.len() ==> #[trigger] pixels@[i] == self.texel_of_pixel(i),
            decreases bh - y,
        {
            let mut lat: u8 = 0;
            while lat < 5
                invariant
                    self.wf(),
                    g == self.gp_index,
                    bw == block_width(g as int),
                    bh == block_height(g as int),
                    tw == 5 * bw,
                    y < bh,
                    lat <= 5,
                    pixels@.len() == y * tw + lat * bw,
                    forall|i: int| 0 <= i < pixels@.len() ==> #[trigger] pixels@[i] == self.texel_of_pixel(i),
                decreases 5 - lat,
            {
                let mut x: usize = 0;
                while x < bw
                    invariant
                        self.wf(),
                        g == self.gp_index,
                        bw == block_width(g as int),
                        bh == block_height(g as int),
                        tw == 5 * bw,
                        y < bh,
                        lat < 5,
                        x <= bw,
                        pixels@.len() == y * tw + lat * bw + x,
                        forall|i: int| 0 <= i < pixels@.len() ==> #[trigger] pixels@[i] == self.texel_of_pixel(i),
                    decreases bw - x,
                {
                    let texel = self.texel(lat, x, y);
                    proof {
                        lemma_pixel_position(y as int, lat as int, x as int, bw as int);
                    }
                    pixels.push(texel);
                    x += 1;
                }
                assert(y * tw + lat * bw + bw == y * tw + (lat + 1) * bw) by (nonlinear_arith);
                lat += 1;
            }
            assert(y * tw + 5 * bw == (y + 1) * tw) by (nonlinear_arith)
                requires tw == 5 * bw;
            y += 1;
        }
        assert(bh * tw == tw * bh) by (nonlinear_arith);
        pixels
    }}


/// The cell whose data shows at column `x` of band `lat`'s block, row `y`;
/// see `texel_source`.
fn texel_source_coordinate(g: usize, lat: u8, x: usize, y: usize) -> (r: ParallelogramCoordinate)
    requires
        gp_fits_memory(g as int),
        lat < 5,
        x < block_width(g as int),
        y < block_height(g as int),
    ensures
        r@ == texel_source(g as int, lat as int, x as int, y as int),
{
    let g3: isize = 3 * g as isize;
    let parallelogram_coordinate = ParallelogramCoordinate::new(g, [x as isize - 1, y as isize - 2], lat);
    proof {
        lemma_unpacked_bounds(parallelogram_coordinate@);
    }
    let mut triangle_coordinate = TriangleCoordinate::from_parallelogram_coordinate(&parallelogram_coordinate);
    if !triangle_coordinate.normalize() {
        return parallelogram_coordinate;
    }
    let ghost n = triangle_coordinate@;
    proof {
        lemma_step_bounds(unpacked(parallelogram_coordinate@));
    }
    let bw = ParallelogramCoordinate::parallelogram_width(g) + 3;
    if x == bw - 1 {
        if y == g * 2 + 1 {
            triangle_coordinate.triangle_longitude = 3;
            triangle_coordinate.cube_coord = [g3 - 2, 1, 1];
        } else if y == 1 {
            triangle_coordinate.triangle_longitude = 1;
            triangle_coordinate.cube_coord = [g3 - 2, 1, 1];
        }
    } else if x == bw - 2 && y == 1 {
        triangle_coordinate.triangle_longitude = 0;
        triangle_coordinate.cube_coord = [1, g3 - 2, 1];
    }
    ParallelogramCoordinate::from_triangle_coordinate(&triangle_coordinate)
}

/// Inside a band's rectangle the texture shows each cell's own field: the
/// texel one column and two rows into band `lat`'s block from a numbered place
/// holds the bytes of the field stored for that place.
pub proof fn lemma_texture_shows_each_cell(planet: Planet, p: ParallelogramModel)
    requires
        planet.wf(),
        p.gp == planet.spec_gp_index(),
        0 <= p.lat < 5,
        0 <= p.y < height_of(p.gp),
        p.y % 2 == 0 ==> 1 <= p.x <= width_of(p.gp),
        p.y % 2 == 1 ==> 0 <= p.x <= width_of(p.gp) - 1 + p.gp % 2,
    ensures
        0 <= p.index() < planet.spec_fields().len(),
        planet.texel_at(p.lat, p.x + 1, p.y + 2) == planet.spec_fields()[p.index()].texel(),
{
    lemma_every_place_holds_a_cell(p);
    lemma_index_unique(unpacked(p), unpacked(p));
    assert(texel_source(p.gp, p.lat, p.x + 1, p.y + 2) == p);
}

/// Position `y * 5 * bw + lat * bw + x` of the image is column `x` of band
/// `lat`'s block in row `y`.
proof fn lemma_pixel_position(y: int, lat: int, x: int, bw: int)
    requires
        0 <= y,
        0 <= lat < 5,
        0 <= x < bw,
    ensures
        (y * (5 * bw) + lat * bw + x) / (5 * bw) == y,
        (y * (5 * bw) + lat * bw + x) % (5 * bw) == lat * bw + x,
        (lat * bw + x) / bw == lat,
        (lat * bw + x) % bw == x,
{
    let w = 5 * bw;
    assert(0 <= lat * bw + x < w) by (nonlinear_arith)
        requires 0 <= lat < 5, 0 <= x < bw, w == 5 * bw;
    vstd::arithmetic::div_mod::lemma_fundamental_div_mod_converse(y * w + lat * bw + x, w, y, lat * bw + x);
    vstd::arithmetic::div_mod::lemma_fundamental_div_mod_converse(lat * bw + x, bw, lat, x);
}

/// One transition keeps the components of a small coordinate small.
proof fn lemma_step_bounds(t: TriangleModel)
    requires
        t.normalizable(),
        !t.is_canonical(),
        t.components_within(32 * t.gp),
        64 * t.gp <= coord_limit(),
    ensures
        t.step().components_within(coord_limit()),
        t.step().gp == t.gp,
{
}

/// On the bordered rectangle of a band, `unpacked` gives a coordinate that
/// `normalize` accepts, with components far inside what `isize` holds.
proof fn lemma_unpacked_bounds(p: ParallelogramModel)
    requires
        gp_fits_memory(p.gp),
        0 <= p.lat < 5,
        -1 <= p.x <= width_of(p.gp) + 1,
        -2 <= p.y <= height_of(p.gp) + 1,
    ensures
        p.fits(),
        unpacked(p).normalizable(),
        unpacked(p).components_within(32 * p.gp),
{
    let g = p.gp;
    assert(width_of(g) <= 2 * g);
}

} // verus!
