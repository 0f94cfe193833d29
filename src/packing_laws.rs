//! Properties of the packed storage layout: packing a cell and unpacking its
//! place are inverse to each other, and the cells of a planet fill the indices
//! of its field array one to one.

use vstd::prelude::*;
use crate::floor_div::{trunc_div, trunc_rem};
use crate::laws::lemma_cell_residues;
use crate::parallelogram::{
    area_of, field_count, gp_fits_memory, height_of, packed, unpacked, width_of, ParallelogramModel,
};
use crate::triangle::TriangleModel;

verus! {

/// Packing a cell into its band's rectangle and reading it back gives the
/// cell itself.
#[verifier::spinoff_prover]
pub proof fn lemma_packing_round_trip(t: TriangleModel)
    requires
        t.is_cell(),
    ensures
        unpacked(packed(t)) == t,
{
    if t.lon == 0 {
        lemma_round_trip_on_row(t, 0);
    } else if t.lon == 1 {
        lemma_round_trip_on_row(t, 1);
    } else if t.lon == 2 {
        lemma_round_trip_on_row(t, 2);
    } else {
        lemma_round_trip_on_row(t, 3);
    }
}

#[verifier::spinoff_prover]
#[verifier::rlimit(40)]
proof fn lemma_round_trip_on_row(t: TriangleModel, row: int)
    requires
        t.is_cell(),
        t.lon == row,
    ensures
        unpacked(packed(t)) == t,
{
    lemma_cell_residues(t);
    let g3 = t.g3();
    let r0 = if row % 2 == 1 { g3 - t.c0 } else { t.c0 };
    let r1 = if row % 2 == 1 { g3 - t.c1 } else { t.c1 } + if row >= 2 { g3 } else { 0 };
    assert(trunc_rem(r0, 2) == r0 % 2);
    assert(packed(t) == ParallelogramModel { gp: t.gp, x: r0 / 2, y: (2 * r1 + r0 % 2) / 3, lat: t.lat });
    lemma_unpacked_at(t.gp, r0, r1, t.lat, row);
}

/// `unpacked` at the place that `packed` gives for the components `r0`, `r1`
/// of the packing frame of row `row`.
#[verifier::spinoff_prover]
proof fn lemma_unpacked_at(g: int, r0: int, r1: int, lat: int, row: int)
    requires
        g >= 1,
        r0 >= 0,
        r1 >= 0,
        (r0 - r1) % 3 == 0,
        row == 0 ==> r0 >= 1 || r1 == 0,
        row == 0 ==> r0 + r1 <= 3 * g,
        row == 1 ==> r0 <= 3 * g && r1 <= 3 * g - 1 && r0 + r1 >= 3 * g + 1,
        row == 2 ==> r0 >= 1 && r1 >= 3 * g && r0 + r1 <= 6 * g - 1,
        row == 3 ==> r0 <= 3 * g && (r1 <= 6 * g - 1 || r0 == 3 * g) && r0 + r1 >= 6 * g,
        0 <= row < 4,
    ensures
        ({
            let c0 = if row % 2 == 1 { 3 * g - r0 } else { r0 };
            let c1a = if row >= 2 { r1 - 3 * g } else { r1 };
            let c1 = if row % 2 == 1 { 3 * g - c1a } else { c1a };
            unpacked(ParallelogramModel { gp: g, x: r0 / 2, y: (2 * r1 + r0 % 2) / 3, lat })
                == TriangleModel { gp: g, c0, c1, c2: 3 * g - c0 - c1, lat, lon: row }
        }),
{
    lemma_resample_inverse(r0, r1);
    let x = r0 / 2;
    assert(trunc_div(x, 3) == x / 3 && trunc_div(x + 2, 3) == (x + 2) / 3);
    if row == 0 {
        lemma_south_row_decision(g, r0, r1);
    } else if row == 1 {
        lemma_lower_middle_row_decision(g, r0, r1);
    } else if row == 2 {
        lemma_upper_middle_row_decision(g, r0, r1);
    } else {
        lemma_north_row_decision(g, r0, r1);
    }
}

/// Which row `unpacked` picks for a place packed from row 0, given the
/// row's canonical region in the packing frame.
#[verifier::spinoff_prover]
proof fn lemma_south_row_decision(g: int, r0: int, r1: int)
    requires
        g >= 1,
        r0 >= 0,
        r1 >= 0,
        (r0 - r1) % 3 == 0,
        r0 >= 1 || r1 == 0, r1 >= 0, r0 + r1 <= 3 * g,
    ensures
        ({
            let x = r0 / 2;
            let y = (2 * r1 + r0 % 2) / 3;
            let (u, u2) = (trunc_div(x, 3), trunc_div(x + 2, 3));
            !(y > 4 * g - u2 - x - 1) && !(y >= 2 * g) && !(y > 2 * g - (x - u) * 2)
        }),
{
    let x = r0 / 2;
    let y = (2 * r1 + r0 % 2) / 3;
    let (u, v) = (x / 3, x % 3);
    let (u2, v2) = ((x + 2) / 3, (x + 2) % 3);
    let (pp, ss) = (r0 % 2, (2 * r1 + r0 % 2) % 3);
    let k = (r0 - r1) / 3;
    assert(!(y > 4 * g - u2 - x - 1) && !(y >= 2 * g) && !(y > 2 * g - (x - u) * 2)) by (nonlinear_arith)
        requires
            x == 3 * u + v, 0 <= v < 3, x + 2 == 3 * u2 + v2, 0 <= v2 < 3, r0 == 2 * x + pp,
            0 <= pp < 2, 2 * r1 + pp == 3 * y + ss, 0 <= ss < 3, r0 - r1 == 3 * k, r0 >= 0, r1 >= 0,
            g >= 1, r0 >= 1 || r1 == 0, r1 >= 0, r0 + r1 <= 3 * g;
}

/// Which row `unpacked` picks for a place packed from row 1, given the
/// row's canonical region in the packing frame.
#[verifier::spinoff_prover]
proof fn lemma_lower_middle_row_decision(g: int, r0: int, r1: int)
    requires
        g >= 1,
        r0 >= 0,
        r1 >= 0,
        (r0 - r1) % 3 == 0,
        r0 <= 3 * g, r1 <= 3 * g - 1, r0 + r1 >= 3 * g + 1,
    ensures
        ({
            let x = r0 / 2;
            let y = (2 * r1 + r0 % 2) / 3;
            let (u, u2) = (trunc_div(x, 3), trunc_div(x + 2, 3));
            !(y > 4 * g - u2 - x - 1) && !(y >= 2 * g) && y > 2 * g - (x - u) * 2
        }),
{
    let x = r0 / 2;
    let y = (2 * r1 + r0 % 2) / 3;
    let (u, v) = (x / 3, x % 3);
    let (u2, v2) = ((x + 2) / 3, (x + 2) % 3);
    let (pp, ss) = (r0 % 2, (2 * r1 + r0 % 2) % 3);
    let k = (r0 - r1) / 3;
    assert(!(y > 4 * g - u2 - x - 1) && !(y >= 2 * g) && y > 2 * g - (x - u) * 2) by (nonlinear_arith)
        requires
            x == 3 * u + v, 0 <= v < 3, x + 2 == 3 * u2 + v2, 0 <= v2 < 3, r0 == 2 * x + pp,
            0 <= pp < 2, 2 * r1 + pp == 3 * y + ss, 0 <= ss < 3, r0 - r1 == 3 * k, r0 >= 0, r1 >= 0,
            g >= 1, r0 <= 3 * g, r1 <= 3 * g - 1, r0 + r1 >= 3 * g + 1;
}

/// Which row `unpacked` picks for a place packed from row 2, given the
/// row's canonical region in the packing frame.
#[verifier::spinoff_prover]
proof fn lemma_upper_middle_row_decision(g: int, r0: int, r1: int)
    requires
        g >= 1,
        r0 >= 0,
        r1 >= 0,
        (r0 - r1) % 3 == 0,
        r0 >= 1, r1 >= 3 * g, r0 + r1 <= 6 * g - 1,
    ensures
        ({
            let x = r0 / 2;
            let y = (2 * r1 + r0 % 2) / 3;
            let (u, u2) = (trunc_div(x, 3), trunc_div(x + 2, 3));
            !(y > 4 * g - u2 - x - 1) && y >= 2 * g
        }),
{
    let x = r0 / 2;
    let y = (2 * r1 + r0 % 2) / 3;
    let (u, v) = (x / 3, x % 3);
    let (u2, v2) = ((x + 2) / 3, (x + 2) % 3);
    let (pp, ss) = (r0 % 2, (2 * r1 + r0 % 2) % 3);
    let k = (r0 - r1) / 3;
    assert(!(y > 4 * g - u2 - x - 1) && y >= 2 * g) by (nonlinear_arith)
        requires
            x == 3 * u + v, 0 <= v < 3, x + 2 == 3 * u2 + v2, 0 <= v2 < 3, r0 == 2 * x + pp,
            0 <= pp < 2, 2 * r1 + pp == 3 * y + ss, 0 <= ss < 3, r0 - r1 == 3 * k, r0 >= 0, r1 >= 0,
            g >= 1, r0 >= 1, r1 >= 3 * g, r0 + r1 <= 6 * g - 1;
}

/// Which row `unpacked` picks for a place packed from row 3, given the
/// row's canonical region in the packing frame.
#[verifier::spinoff_prover]
proof fn lemma_north_row_decision(g: int, r0: int, r1: int)
    requires
        g >= 1,
        r0 >= 0,
        r1 >= 0,
        (r0 - r1) % 3 == 0,
        r0 <= 3 * g, r1 <= 6 * g - 1 || r0 == 3 * g, r0 + r1 >= 6 * g,
    ensures
        ({
            let x = r0 / 2;
            let y = (2 * r1 + r0 % 2) / 3;
            let (u, u2) = (trunc_div(x, 3), trunc_div(x + 2, 3));
            y > 4 * g - u2 - x - 1
        }),
{
    let x = r0 / 2;
    let y = (2 * r1 + r0 % 2) / 3;
    let (u, v) = (x / 3, x % 3);
    let (u2, v2) = ((x + 2) / 3, (x + 2) % 3);
    let (pp, ss) = (r0 % 2, (2 * r1 + r0 % 2) % 3);
    let k = (r0 - r1) / 3;
    assert(y > 4 * g - u2 - x - 1) by (nonlinear_arith)
        requires
            x == 3 * u + v, 0 <= v < 3, x + 2 == 3 * u2 + v2, 0 <= v2 < 3, r0 == 2 * x + pp,
            0 <= pp < 2, 2 * r1 + pp == 3 * y + ss, 0 <= ss < 3, r0 - r1 == 3 * k, r0 >= 0, r1 >= 0,
            g >= 1, r0 <= 3 * g, r1 <= 6 * g - 1 || r0 == 3 * g, r0 + r1 >= 6 * g;
}

/// The resampling of `packed` is undone by `unpacked`: from the column
/// `r0 / 2` and the row `(2 * r1 + r0 % 2) / 3` the two components come back,
/// for any two that agree modulo 3.
#[verifier::spinoff_prover]
proof fn lemma_resample_inverse(r0: int, r1: int)
    requires
        r0 >= 0,
        r1 >= 0,
        (r0 - r1) % 3 == 0,
    ensures
        ({
            let x = r0 / 2;
            let y = (2 * r1 + r0 % 2) / 3;
            let odd = (x + y - x / 3) % 2;
            &&& x * 2 + odd == r0
            &&& y * 3 / 2 + (if x % 3 >= 1 + odd { 1int } else { 0int }) == r1
        }),
{
    let x = r0 / 2;
    let p = r0 % 2;
    let y = (2 * r1 + p) / 3;
    let s = (2 * r1 + p) % 3;
    let u = x / 3;
    let v = x % 3;
    assert(r0 == 2 * x + p);
    assert(2 * r1 + p == 3 * y + s);
    assert(x == 3 * u + v);
    assert(r1 % 3 == r0 % 3);
}

/// Different cells of a planet are stored at different indices, all inside
/// the planet's array of fields.
#[verifier::spinoff_prover]
pub proof fn lemma_index_unique(t1: TriangleModel, t2: TriangleModel)
    requires
        t1.is_cell(),
        t2.is_cell(),
        t1.gp == t2.gp,
        gp_fits_memory(t1.gp),
    ensures
        packed(t1).in_band(),
        0 <= packed(t1).index() < field_count(t1.gp),
        packed(t1).index() == packed(t2).index() ==> t1 == t2,
{
    lemma_index_of_cell(t1);
    lemma_index_of_cell(t2);
    let (place1, place2) = (packed(t1), packed(t2));
    if place1.index() == place2.index() {
        if !place1.is_south_pole() && !place1.is_north_pole() && !place2.is_south_pole() && !place2.is_north_pole() {
            let a = area_of(t1.gp);
            assert(place1.lat == place2.lat) by (nonlinear_arith)
                requires
                    place1.lat * a + 1 <= place1.index() <= place1.lat * a + a,
                    place2.lat * a + 1 <= place2.index() <= place2.lat * a + a,
                    place1.index() == place2.index(),
                    a >= 1;
            assert(place1.index() == place1.lat * a + (place1.y * width_of(t1.gp) + place1.x + place1.y % 2 + place1.y / 2 * (t1.gp
                % 2)));
            assert(place2.index() == place2.lat * a + (place2.y * width_of(t1.gp) + place2.x + place2.y % 2 + place2.y / 2 * (t1.gp
                % 2)));
            lemma_band_offset_unique(t1.gp, place1.x, place1.y, place2.x, place2.y);
        } else if place1.is_south_pole() || place2.is_south_pole() {
            assert(place1.is_south_pole() && place2.is_south_pole());
        } else {
            assert(place1.is_north_pole() && place2.is_north_pole());
        }
        assert(place1 == place2);
        lemma_packing_round_trip(t1);
        lemma_packing_round_trip(t2);
    }
}

/// Where a cell is stored: the two poles at their shared indices, every other
/// cell inside the block of its band.
#[verifier::spinoff_prover]
proof fn lemma_index_of_cell(t: TriangleModel)
    requires
        t.is_cell(),
        gp_fits_memory(t.gp),
    ensures
        packed(t).in_band(),
        0 <= packed(t).index() < field_count(t.gp),
        packed(t).is_south_pole() || packed(t).is_north_pole() || ({
            let p = packed(t);
            let a = area_of(t.gp);
            &&& p.lat * a + 1 <= p.index() <= p.lat * a + a
            &&& 1 <= p.index() <= 5 * a
            &&& p.y < height_of(t.gp)
            &&& (p.y % 2 == 0 ==> 1 <= p.x)
            &&& (p.y % 2 == 1 ==> p.x <= width_of(t.gp) - 1 + t.gp % 2)
        }),
        packed(t).is_south_pole() ==> packed(t).index() == 0 && packed(t).lat == 0,
        packed(t).is_north_pole() ==> packed(t).index() == field_count(t.gp) - 1 && packed(t).lat == 0,
{
    let g = t.gp;
    let p = packed(t);
    let g3 = t.g3();
    lemma_cell_residues(t);
    let r0 = if t.lon % 2 == 1 { g3 - t.c0 } else { t.c0 };
    let r1 = if t.lon % 2 == 1 { g3 - t.c1 } else { t.c1 } + if t.lon >= 2 { g3 } else { 0 };
    assert(trunc_rem(r0, 2) == r0 % 2);
    assert(p.x == r0 / 2 && p.y == (2 * r1 + r0 % 2) / 3);
    let w = width_of(g);
    let a = area_of(g);
    if t.lon == 0 && t.c0 == 0 {
        assert(p.x == 0 && p.y == 0);
    } else if t.lon == 3 && t.c0 == 0 && t.c1 == 0 {
        lemma_north_pole_place(g);
    } else {
        lemma_place_of_cell(t, r0, r1);
        lemma_band_offset(g, p.x, p.y);
        assert(!p.is_south_pole() && !p.is_north_pole());
        assert(p.lat * a + a <= 5 * a) by (nonlinear_arith)
            requires 0 <= p.lat < 5, a >= 0;
        assert(0 <= p.lat * a) by (nonlinear_arith)
            requires 0 <= p.lat, a >= 0;
    }
}

/// Where a cell other than a pole of the axis lies in its band's rectangle.
#[verifier::spinoff_prover]
proof fn lemma_place_of_cell(t: TriangleModel, r0: int, r1: int)
    requires
        t.is_cell(),
        !(t.lon == 0 && t.c0 == 0),
        !(t.lon == 3 && t.c0 == 0 && t.c1 == 0),
        r0 == if t.lon % 2 == 1 { t.g3() - t.c0 } else { t.c0 },
        r1 == if t.lon % 2 == 1 { t.g3() - t.c1 } else { t.c1 } + if t.lon >= 2 { t.g3() } else { 0 },
    ensures
        ({
            let x = r0 / 2;
            let y = (2 * r1 + r0 % 2) / 3;
            &&& 0 <= y < height_of(t.gp)
            &&& 0 <= x <= width_of(t.gp)
            &&& (y % 2 == 0 ==> 1 <= x)
            &&& (y % 2 == 1 ==> x <= width_of(t.gp) - 1 + t.gp % 2)
        }),
{
    lemma_cell_residues(t);
    let g = t.gp;
    if t.lon == 0 {
        lemma_south_row_place(g, r0, r1);
    } else if t.lon == 1 {
        lemma_lower_middle_row_place(g, r0, r1);
    } else if t.lon == 2 {
        lemma_upper_middle_row_place(g, r0, r1);
    } else {
        lemma_north_row_place(g, r0, r1);
    }
}

/// The north pole packs to the far corner of the rectangle.
#[verifier::spinoff_prover]
proof fn lemma_north_pole_place(g: int)
    requires
        g >= 1,
    ensures
        (3 * g) / 2 == width_of(g),
        (2 * (6 * g) + (3 * g) % 2) / 3 == height_of(g),
{
    let (m, e) = (g / 2, g % 2);
    assert(3 * g == 6 * m + 3 * e);
}

/// Inside a band's block, the cells of row `y` take the indices right after
/// those of row `y - 1`: a pair of rows takes `3 * g` indices.
#[verifier::spinoff_prover]
proof fn lemma_band_offset(g: int, x: int, y: int)
    requires
        g >= 1,
        0 <= y < height_of(g),
        y % 2 == 0 ==> 1 <= x <= width_of(g),
        y % 2 == 1 ==> 0 <= x <= width_of(g) - 1 + g % 2,
    ensures
        ({
            let offset = y * width_of(g) + x + y % 2 + y / 2 * (g % 2);
            &&& 3 * g * (y / 2) < offset <= 3 * g * (y / 2) + 3 * g
            &&& (y % 2 == 0 <==> offset - 3 * g * (y / 2) <= width_of(g))
            &&& offset == 3 * g * (y / 2) + (y % 2) * (width_of(g) + 1) + x
            &&& 1 <= offset <= area_of(g)
        }),
{
    let (w, e, j, f) = (width_of(g), g % 2, y / 2, y % 2);
    let offset = y * w + x + f + j * e;
    assert(2 * w + e == 3 * g);
    assert(y == 2 * j + f);
    assert(y * w + f + j * e == 3 * g * j + f * (w + 1)) by (nonlinear_arith)
        requires y == 2 * j + f, 2 * w + e == 3 * g;
    assert(j <= 2 * g - 1);
    assert(3 * g * j + 3 * g <= g * g * 6) by (nonlinear_arith)
        requires j <= 2 * g - 1, g >= 1;
    assert(0 <= 3 * g * j) by (nonlinear_arith)
        requires g >= 1, j >= 0;
    if f == 0 {
        assert(f * (w + 1) == 0) by (nonlinear_arith)
            requires f == 0;
        assert(offset == 3 * g * j + x);
    } else {
        assert(f * (w + 1) == w + 1) by (nonlinear_arith)
            requires f == 1;
        assert(offset == 3 * g * j + w + 1 + x);
    }
}

/// Two places of one band's block with the same index are the same place.
#[verifier::spinoff_prover]
proof fn lemma_band_offset_unique(g: int, x1: int, y1: int, x2: int, y2: int)
    requires
        g >= 1,
        0 <= y1 < height_of(g),
        y1 % 2 == 0 ==> 1 <= x1 <= width_of(g),
        y1 % 2 == 1 ==> 0 <= x1 <= width_of(g) - 1 + g % 2,
        0 <= y2 < height_of(g),
        y2 % 2 == 0 ==> 1 <= x2 <= width_of(g),
        y2 % 2 == 1 ==> 0 <= x2 <= width_of(g) - 1 + g % 2,
        y1 * width_of(g) + x1 + y1 % 2 + y1 / 2 * (g % 2) == y2 * width_of(g) + x2 + y2 % 2 + y2 / 2
            * (g % 2),
    ensures
        x1 == x2,
        y1 == y2,
{
    lemma_band_offset(g, x1, y1);
    lemma_band_offset(g, x2, y2);
    let (j1, j2) = (y1 / 2, y2 / 2);
    let o = y1 * width_of(g) + x1 + y1 % 2 + y1 / 2 * (g % 2);
    assert(j1 == j2) by (nonlinear_arith)
        requires
            3 * g * j1 < o <= 3 * g * j1 + 3 * g,
            3 * g * j2 < o <= 3 * g * j2 + 3 * g,
            g >= 1;
}

/// Where a cell of row 0 (other than a pole of the axis) lies in its
/// band's rectangle, from its components `r0`, `r1` in the packing frame.
#[verifier::spinoff_prover]
proof fn lemma_south_row_place(g: int, r0: int, r1: int)
    requires
        g >= 1,
        r0 >= 0,
        r1 >= 0,
        (r0 - r1) % 3 == 0,
        r0 >= 1, r1 >= 0, r0 + r1 <= 3 * g,
    ensures
        ({
            let x = r0 / 2;
            let y = (2 * r1 + r0 % 2) / 3;
            &&& 0 <= y < height_of(g)
            &&& 0 <= x <= width_of(g)
            &&& (y % 2 == 0 ==> 1 <= x)
            &&& (y % 2 == 1 ==> x <= width_of(g) - 1 + g % 2)
        }),
{
    let x = r0 / 2;
    let y = (2 * r1 + r0 % 2) / 3;
    let (pp, ss) = (r0 % 2, (2 * r1 + r0 % 2) % 3);
    let (j, f) = (y / 2, y % 2);
    let (m, e) = (g / 2, g % 2);
    let k = (r0 - r1) / 3;
    assert(width_of(g) == 3 * m + e);
    assert({
        &&& 0 <= y < 4 * g
        &&& 0 <= x <= 3 * m + e
        &&& (f == 0 ==> 1 <= x)
        &&& (f == 1 ==> x <= 3 * m + e - 1 + e)
    }) by (nonlinear_arith)
        requires
            r0 == 2 * x + pp, 0 <= pp < 2, 2 * r1 + pp == 3 * y + ss, 0 <= ss < 3, y == 2 * j + f,
            0 <= f < 2, g == 2 * m + e, 0 <= e < 2, r0 - r1 == 3 * k, r0 >= 0, r1 >= 0, g >= 1, r0 >= 1, r1 >= 0, r0 + r1 <= 3 * g;
}

/// Where a cell of row 1 (other than a pole of the axis) lies in its
/// band's rectangle, from its components `r0`, `r1` in the packing frame.
#[verifier::spinoff_prover]
proof fn lemma_lower_middle_row_place(g: int, r0: int, r1: int)
    requires
        g >= 1,
        r0 >= 0,
        r1 >= 0,
        (r0 - r1) % 3 == 0,
        r0 <= 3 * g, r1 <= 3 * g - 1, r0 + r1 >= 3 * g + 1,
    ensures
        ({
            let x = r0 / 2;
            let y = (2 * r1 + r0 % 2) / 3;
            &&& 0 <= y < height_of(g)
            &&& 0 <= x <= width_of(g)
            &&& (y % 2 == 0 ==> 1 <= x)
            &&& (y % 2 == 1 ==> x <= width_of(g) - 1 + g % 2)
        }),
{
    let x = r0 / 2;
    let y = (2 * r1 + r0 % 2) / 3;
    let (pp, ss) = (r0 % 2, (2 * r1 + r0 % 2) % 3);
    let (j, f) = (y / 2, y % 2);
    let (m, e) = (g / 2, g % 2);
    let k = (r0 - r1) / 3;
    assert(width_of(g) == 3 * m + e);
    assert({
        &&& 0 <= y < 4 * g
        &&& 0 <= x <= 3 * m + e
        &&& (f == 0 ==> 1 <= x)
        &&& (f == 1 ==> x <= 3 * m + e - 1 + e)
    }) by (nonlinear_arith)
        requires
            r0 == 2 * x + pp, 0 <= pp < 2, 2 * r1 + pp == 3 * y + ss, 0 <= ss < 3, y == 2 * j + f,
            0 <= f < 2, g == 2 * m + e, 0 <= e < 2, r0 - r1 == 3 * k, r0 >= 0, r1 >= 0, g >= 1, r0 <= 3 * g, r1 <= 3 * g - 1, r0 + r1 >= 3 * g + 1;
}

/// Where a cell of row 2 (other than a pole of the axis) lies in its
/// band's rectangle, from its components `r0`, `r1` in the packing frame.
#[verifier::spinoff_prover]
proof fn lemma_upper_middle_row_place(g: int, r0: int, r1: int)
    requires
        g >= 1,
        r0 >= 0,
        r1 >= 0,
        (r0 - r1) % 3 == 0,
        r0 >= 1, r1 >= 3 * g, r0 + r1 <= 6 * g - 1,
    ensures
        ({
            let x = r0 / 2;
            let y = (2 * r1 + r0 % 2) / 3;
            &&& 0 <= y < height_of(g)
            &&& 0 <= x <= width_of(g)
            &&& (y % 2 == 0 ==> 1 <= x)
            &&& (y % 2 == 1 ==> x <= width_of(g) - 1 + g % 2)
        }),
{
    let x = r0 / 2;
    let y = (2 * r1 + r0 % 2) / 3;
    let (pp, ss) = (r0 % 2, (2 * r1 + r0 % 2) % 3);
    let (j, f) = (y / 2, y % 2);
    let (m, e) = (g / 2, g % 2);
    let k = (r0 - r1) / 3;
    assert(width_of(g) == 3 * m + e);
    assert({
        &&& 0 <= y < 4 * g
        &&& 0 <= x <= 3 * m + e
        &&& (f == 0 ==> 1 <= x)
        &&& (f == 1 ==> x <= 3 * m + e - 1 + e)
    }) by (nonlinear_arith)
        requires
            r0 == 2 * x + pp, 0 <= pp < 2, 2 * r1 + pp == 3 * y + ss, 0 <= ss < 3, y == 2 * j + f,
            0 <= f < 2, g == 2 * m + e, 0 <= e < 2, r0 - r1 == 3 * k, r0 >= 0, r1 >= 0, g >= 1, r0 >= 1, r1 >= 3 * g, r0 + r1 <= 6 * g - 1;
}

/// Where a cell of row 3 (other than a pole of the axis) lies in its
/// band's rectangle, from its components `r0`, `r1` in the packing frame.
#[verifier::spinoff_prover]
proof fn lemma_north_row_place(g: int, r0: int, r1: int)
    requires
        g >= 1,
        r0 >= 0,
        r1 >= 0,
        (r0 - r1) % 3 == 0,
        r0 <= 3 * g, r1 <= 6 * g - 1, r0 + r1 >= 6 * g,
    ensures
        ({
            let x = r0 / 2;
            let y = (2 * r1 + r0 % 2) / 3;
            &&& 0 <= y < height_of(g)
            &&& 0 <= x <= width_of(g)
            &&& (y % 2 == 0 ==> 1 <= x)
            &&& (y % 2 == 1 ==> x <= width_of(g) - 1 + g % 2)
        }),
{
    let x = r0 / 2;
    let y = (2 * r1 + r0 % 2) / 3;
    let (pp, ss) = (r0 % 2, (2 * r1 + r0 % 2) % 3);
    let (j, f) = (y / 2, y % 2);
    let (m, e) = (g / 2, g % 2);
    let k = (r0 - r1) / 3;
    assert(width_of(g) == 3 * m + e);
    assert({
        &&& 0 <= y < 4 * g
        &&& 0 <= x <= 3 * m + e
        &&& (f == 0 ==> 1 <= x)
        &&& (f == 1 ==> x <= 3 * m + e - 1 + e)
    }) by (nonlinear_arith)
        requires
            r0 == 2 * x + pp, 0 <= pp < 2, 2 * r1 + pp == 3 * y + ss, 0 <= ss < 3, y == 2 * j + f,
            0 <= f < 2, g == 2 * m + e, 0 <= e < 2, r0 - r1 == 3 * k, r0 >= 0, r1 >= 0, g >= 1, r0 <= 3 * g, r1 <= 6 * g - 1, r0 + r1 >= 6 * g;
}

/// Every place of a band's block that `index_in_total` numbers holds a cell:
/// unpacking it gives a cell, which packs back to the same place. With
/// `lemma_index_unique`, the cells and the indices of the field array are in
/// one-to-one correspondence.
pub proof fn lemma_every_place_holds_a_cell(p: ParallelogramModel)
    requires
        gp_fits_memory(p.gp),
        0 <= p.lat < 5,
        0 <= p.y < height_of(p.gp),
        p.y % 2 == 0 ==> 1 <= p.x <= width_of(p.gp),
        p.y % 2 == 1 ==> 0 <= p.x <= width_of(p.gp) - 1 + p.gp % 2,
    ensures
        unpacked(p).is_cell(),
        packed(unpacked(p)) == p,
{
    let (g, x, y) = (p.gp, p.x, p.y);
    let (u, u2) = (x / 3, (x + 2) / 3);
    assert(trunc_div(x, 3) == u && trunc_div(x + 2, 3) == u2);
    let odd = (x + y - x / 3) % 2;
    let r0 = x * 2 + odd;
    let r1 = y * 3 / 2 + if x % 3 >= 1 + odd { 1int } else { 0int };
    let row = if y > 4 * g - u2 - x - 1 {
        3int
    } else if y >= 2 * g {
        2int
    } else if y > 2 * g - (x - u) * 2 {
        1int
    } else {
        0int
    };
    if row == 0 {
        lemma_south_row_unpacks(g, x, y);
    } else if row == 1 {
        lemma_lower_middle_row_unpacks(g, x, y);
    } else if row == 2 {
        lemma_upper_middle_row_unpacks(g, x, y);
    } else {
        lemma_north_row_unpacks(g, x, y);
    }
    assert(p == ParallelogramModel { gp: g, x: r0 / 2, y: (2 * r1 + r0 % 2) / 3, lat: p.lat });
    lemma_unpacked_at(g, r0, r1, p.lat, row);
    let t = unpacked(p);
    assert(t.is_canonical() && t.valid());
    assert(t.on_lattice()) by {
        assert((t.c0 - t.c1) % 3 == 0 && (t.c1 - t.c2) % 3 == 0) by (nonlinear_arith)
            requires
                (r0 - r1) % 3 == 0,
                t.c0 == if row % 2 == 1 { 3 * g - r0 } else { r0 },
                t.c1 == if row % 2 == 1 { 3 * g - (if row >= 2 { r1 - 3 * g } else { r1 }) } else { if row >= 2 { r1 - 3 * g } else { r1 } },
                t.c2 == 3 * g - t.c0 - t.c1;
    }
    assert(trunc_rem(r0, 2) == r0 % 2);
}

/// A place of a band's block that `unpacked` sends to row 0 comes from
/// components `r0`, `r1` in that row's canonical region, which pack back to it.
#[verifier::spinoff_prover]
proof fn lemma_south_row_unpacks(g: int, x: int, y: int)
    requires
        g >= 1,
        0 <= y < 4 * g,
        y % 2 == 0 ==> 1 <= x <= width_of(g),
        y % 2 == 1 ==> 0 <= x <= width_of(g) - 1 + g % 2,
        ({
            let (u, u2) = (x / 3, (x + 2) / 3);
            !(y > 4 * g - u2 - x - 1) && !(y >= 2 * g) && !(y > 2 * g - (x - u) * 2)
        }),
    ensures
        ({
            let odd = (x + y - x / 3) % 2;
            let r0 = x * 2 + odd;
            let r1 = y * 3 / 2 + if x % 3 >= 1 + odd { 1int } else { 0int };
            &&& r0 >= 1 && r1 >= 0 && r0 + r1 <= 3 * g
            &&& (r0 - r1) % 3 == 0
            &&& r0 / 2 == x
            &&& (2 * r1 + r0 % 2) / 3 == y
        }),
{
    let (u, v) = (x / 3, x % 3);
    let (u2, v2) = ((x + 2) / 3, (x + 2) % 3);
    let (j, f) = (y / 2, y % 2);
    let (m, e) = (g / 2, g % 2);
    let q = (x + y - u) / 2;
    let odd = (x + y - u) % 2;
    let z = y * 3 / 2;
    let zr = (y * 3) % 2;
    let bump = if v >= 1 + odd { 1int } else { 0int };
    let r0 = x * 2 + odd;
    let r1 = z + bump;
    let pp = r0 % 2;
    let (yy, ss) = ((2 * r1 + pp) / 3, (2 * r1 + pp) % 3);
    let (k, kr) = ((r0 - r1) / 3, (r0 - r1) % 3);
    assert(width_of(g) == 3 * m + e);
    assert({
        &&& r0 >= 1 && r1 >= 0 && r0 + r1 <= 3 * g
        &&& kr == 0
        &&& r0 / 2 == x
        &&& yy == y
    }) by (nonlinear_arith)
        requires
            x == 3 * u + v, 0 <= v < 3, x + 2 == 3 * u2 + v2, 0 <= v2 < 3, y == 2 * j + f, 0 <= f < 2,
            g == 2 * m + e, 0 <= e < 2, x + y - u == 2 * q + odd, 0 <= odd < 2, 3 * y == 2 * z + zr,
            0 <= zr < 2, bump == if v >= 1 + odd { 1int } else { 0int }, r0 == x * 2 + odd, r1 == z + bump,
            r0 == 2 * (r0 / 2) + pp, 0 <= pp < 2, 2 * r1 + pp == 3 * yy + ss, 0 <= ss < 3,
            r0 - r1 == 3 * k + kr, 0 <= kr < 3, 0 <= y < 4 * g, g >= 1,
            f == 0 ==> 1 <= x <= 3 * m + e, f == 1 ==> 0 <= x <= 3 * m + e - 1 + e, !(y > 4 * g - u2 - x - 1) && !(y >= 2 * g) && !(y > 2 * g - (x - u) * 2);
}

/// A place of a band's block that `unpacked` sends to row 1 comes from
/// components `r0`, `r1` in that row's canonical region, which pack back to it.
#[verifier::spinoff_prover]
proof fn lemma_lower_middle_row_unpacks(g: int, x: int, y: int)
    requires
        g >= 1,
        0 <= y < 4 * g,
        y % 2 == 0 ==> 1 <= x <= width_of(g),
        y % 2 == 1 ==> 0 <= x <= width_of(g) - 1 + g % 2,
        ({
            let (u, u2) = (x / 3, (x + 2) / 3);
            !(y > 4 * g - u2 - x - 1) && !(y >= 2 * g) && y > 2 * g - (x - u) * 2
        }),
    ensures
        ({
            let odd = (x + y - x / 3) % 2;
            let r0 = x * 2 + odd;
            let r1 = y * 3 / 2 + if x % 3 >= 1 + odd { 1int } else { 0int };
            &&& r0 <= 3 * g && r1 <= 3 * g - 1 && r0 + r1 >= 3 * g + 1
            &&& (r0 - r1) % 3 == 0
            &&& r0 / 2 == x
            &&& (2 * r1 + r0 % 2) / 3 == y
        }),
{
    let (u, v) = (x / 3, x % 3);
    let (u2, v2) = ((x + 2) / 3, (x + 2) % 3);
    let (j, f) = (y / 2, y % 2);
    let (m, e) = (g / 2, g % 2);
    let q = (x + y - u) / 2;
    let odd = (x + y - u) % 2;
    let z = y * 3 / 2;
    let zr = (y * 3) % 2;
    let bump = if v >= 1 + odd { 1int } else { 0int };
    let r0 = x * 2 + odd;
    let r1 = z + bump;
    let pp = r0 % 2;
    let (yy, ss) = ((2 * r1 + pp) / 3, (2 * r1 + pp) % 3);
    let (k, kr) = ((r0 - r1) / 3, (r0 - r1) % 3);
    assert(width_of(g) == 3 * m + e);
    assert({
        &&& r0 <= 3 * g && r1 <= 3 * g - 1 && r0 + r1 >= 3 * g + 1
        &&& kr == 0
        &&& r0 / 2 == x
        &&& yy == y
    }) by (nonlinear_arith)
        requires
            x == 3 * u + v, 0 <= v < 3, x + 2 == 3 * u2 + v2, 0 <= v2 < 3, y == 2 * j + f, 0 <= f < 2,
            g == 2 * m + e, 0 <= e < 2, x + y - u == 2 * q + odd, 0 <= odd < 2, 3 * y == 2 * z + zr,
            0 <= zr < 2, bump == if v >= 1 + odd { 1int } else { 0int }, r0 == x * 2 + odd, r1 == z + bump,
            r0 == 2 * (r0 / 2) + pp, 0 <= pp < 2, 2 * r1 + pp == 3 * yy + ss, 0 <= ss < 3,
            r0 - r1 == 3 * k + kr, 0 <= kr < 3, 0 <= y < 4 * g, g >= 1,
            f == 0 ==> 1 <= x <= 3 * m + e, f == 1 ==> 0 <= x <= 3 * m + e - 1 + e, !(y > 4 * g - u2 - x - 1) && !(y >= 2 * g) && y > 2 * g - (x - u) * 2;
}

/// A place of a band's block that `unpacked` sends to row 2 comes from
/// components `r0`, `r1` in that row's canonical region, which pack back to it.
#[verifier::spinoff_prover]
proof fn lemma_upper_middle_row_unpacks(g: int, x: int, y: int)
    requires
        g >= 1,
        0 <= y < 4 * g,
        y % 2 == 0 ==> 1 <= x <= width_of(g),
        y % 2 == 1 ==> 0 <= x <= width_of(g) - 1 + g % 2,
        ({
            let (u, u2) = (x / 3, (x + 2) / 3);
            !(y > 4 * g - u2 - x - 1) && y >= 2 * g
        }),
    ensures
        ({
            let odd = (x + y - x / 3) % 2;
            let r0 = x * 2 + odd;
            let r1 = y * 3 / 2 + if x % 3 >= 1 + odd { 1int } else { 0int };
            &&& r0 >= 1 && r1 >= 3 * g && r0 + r1 <= 6 * g - 1
            &&& (r0 - r1) % 3 == 0
            &&& r0 / 2 == x
            &&& (2 * r1 + r0 % 2) / 3 == y
        }),
{
    let (u, v) = (x / 3, x % 3);
    let (u2, v2) = ((x + 2) / 3, (x + 2) % 3);
    let (j, f) = (y / 2, y % 2);
    let (m, e) = (g / 2, g % 2);
    let q = (x + y - u) / 2;
    let odd = (x + y - u) % 2;
    let z = y * 3 / 2;
    let zr = (y * 3) % 2;
    let bump = if v >= 1 + odd { 1int } else { 0int };
    let r0 = x * 2 + odd;
    let r1 = z + bump;
    let pp = r0 % 2;
    let (yy, ss) = ((2 * r1 + pp) / 3, (2 * r1 + pp) % 3);
    let (k, kr) = ((r0 - r1) / 3, (r0 - r1) % 3);
    assert(width_of(g) == 3 * m + e);
    assert({
        &&& r0 >= 1 && r1 >= 3 * g && r0 + r1 <= 6 * g - 1
        &&& kr == 0
        &&& r0 / 2 == x
        &&& yy == y
    }) by (nonlinear_arith)
        requires
            x == 3 * u + v, 0 <= v < 3, x + 2 == 3 * u2 + v2, 0 <= v2 < 3, y == 2 * j + f, 0 <= f < 2,
            g == 2 * m + e, 0 <= e < 2, x + y - u == 2 * q + odd, 0 <= odd < 2, 3 * y == 2 * z + zr,
            0 <= zr < 2, bump == if v >= 1 + odd { 1int } else { 0int }, r0 == x * 2 + odd, r1 == z + bump,
            r0 == 2 * (r0 / 2) + pp, 0 <= pp < 2, 2 * r1 + pp == 3 * yy + ss, 0 <= ss < 3,
            r0 - r1 == 3 * k + kr, 0 <= kr < 3, 0 <= y < 4 * g, g >= 1,
            f == 0 ==> 1 <= x <= 3 * m + e, f == 1 ==> 0 <= x <= 3 * m + e - 1 + e, !(y > 4 * g - u2 - x - 1) && y >= 2 * g;
}

/// A place of a band's block that `unpacked` sends to row 3 comes from
/// components `r0`, `r1` in that row's canonical region, which pack back to it.
#[verifier::spinoff_prover]
proof fn lemma_north_row_unpacks(g: int, x: int, y: int)
    requires
        g >= 1,
        0 <= y < 4 * g,
        y % 2 == 0 ==> 1 <= x <= width_of(g),
        y % 2 == 1 ==> 0 <= x <= width_of(g) - 1 + g % 2,
        ({
            let (u, u2) = (x / 3, (x + 2) / 3);
            y > 4 * g - u2 - x - 1
        }),
    ensures
        ({
            let odd = (x + y - x / 3) % 2;
            let r0 = x * 2 + odd;
            let r1 = y * 3 / 2 + if x % 3 >= 1 + odd { 1int } else { 0int };
            &&& r0 <= 3 * g && r1 <= 6 * g - 1 && r0 + r1 >= 6 * g
            &&& (r0 - r1) % 3 == 0
            &&& r0 / 2 == x
            &&& (2 * r1 + r0 % 2) / 3 == y
        }),
{
    let (u, v) = (x / 3, x % 3);
    let (u2, v2) = ((x + 2) / 3, (x + 2) % 3);
    let (j, f) = (y / 2, y % 2);
    let (m, e) = (g / 2, g % 2);
    let q = (x + y - u) / 2;
    let odd = (x + y - u) % 2;
    let z = y * 3 / 2;
    let zr = (y * 3) % 2;
    let bump = if v >= 1 + odd { 1int } else { 0int };
    let r0 = x * 2 + odd;
    let r1 = z + bump;
    let pp = r0 % 2;
    let (yy, ss) = ((2 * r1 + pp) / 3, (2 * r1 + pp) % 3);
    let (k, kr) = ((r0 - r1) / 3, (r0 - r1) % 3);
    assert(width_of(g) == 3 * m + e);
    assert({
        &&& r0 <= 3 * g && r1 <= 6 * g - 1 && r0 + r1 >= 6 * g
        &&& kr == 0
        &&& r0 / 2 == x
        &&& yy == y
    }) by (nonlinear_arith)
        requires
            x == 3 * u + v, 0 <= v < 3, x + 2 == 3 * u2 + v2, 0 <= v2 < 3, y == 2 * j + f, 0 <= f < 2,
            g == 2 * m + e, 0 <= e < 2, x + y - u == 2 * q + odd, 0 <= odd < 2, 3 * y == 2 * z + zr,
            0 <= zr < 2, bump == if v >= 1 + odd { 1int } else { 0int }, r0 == x * 2 + odd, r1 == z + bump,
            r0 == 2 * (r0 / 2) + pp, 0 <= pp < 2, 2 * r1 + pp == 3 * yy + ss, 0 <= ss < 3,
            r0 - r1 == 3 * k + kr, 0 <= kr < 3, 0 <= y < 4 * g, g >= 1,
            f == 0 ==> 1 <= x <= 3 * m + e, f == 1 ==> 0 <= x <= 3 * m + e - 1 + e, y > 4 * g - u2 - x - 1;
}

} // verus!
