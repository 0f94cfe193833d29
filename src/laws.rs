//! Properties of the face coordinates that relate their operations:
//! normalization, steps between cells, and the poles.

use vstd::prelude::*;
use crate::parallelogram::{unpacked, ParallelogramModel};
use crate::triangle::{Direction, TriangleModel};

verus! {

/// The canonical coordinate of icosahedron vertex `v`: the south pole on face
/// (0, 0), the southern ring on row 0, the northern ring on row 3 and the
/// north pole on face (0, 3).
pub open spec fn vertex_cell(gp: int, v: int) -> TriangleModel {
    let g3 = 3 * gp;
    if v == 0 {
        TriangleModel { gp, c0: 0, c1: 0, c2: g3, lat: 0, lon: 0 }
    } else if v <= 5 {
        TriangleModel { gp, c0: g3, c1: 0, c2: 0, lat: (v + 3) % 5, lon: 0 }
    } else if v <= 10 {
        TriangleModel { gp, c0: 0, c1: g3, c2: 0, lat: (v + 3) % 5, lon: 3 }
    } else {
        TriangleModel { gp, c0: 0, c1: 0, c2: g3, lat: 0, lon: 3 }
    }
}

/// The components of a coordinate add up to `3 * gp` however it was made:
/// unpacked from a place of a band's rectangle, normalized, or moved by a step.
#[verifier::spinoff_prover]
pub proof fn lemma_cube_sum_kept(t: TriangleModel, d: Direction, p: ParallelogramModel)
    requires
        t.valid(),
    ensures
        t.normalized().sum_holds(),
        t.normalized().gp == t.gp,
        t.navigated(d).sum_holds(),
        t.navigated(d).gp == t.gp,
        unpacked(p).sum_holds(),
        unpacked(p).gp == p.gp,
{
    lemma_normalized_sum(t);
    lemma_direction_cases(d);
    assert(t.moved(d).normalizable());
    lemma_normalized_sum(t.moved(d));
}

#[verifier::spinoff_prover]
proof fn lemma_normalized_sum(m: TriangleModel)
    requires
        m.normalizable(),
    ensures
        m.normalized().sum_holds(),
        m.normalized().gp == m.gp,
{
}

/// Normalizing a canonical coordinate changes nothing, and `normalize`
/// reports no change for it.
#[verifier::spinoff_prover]
pub proof fn lemma_normalize_idempotent(t: TriangleModel)
    requires
        t.normalizable(),
        t.is_canonical(),
    ensures
        t.normalized() == t,
{
}

/// A face corner, seen from any of the faces that meet there, normalizes in
/// one call to the canonical coordinate of its icosahedron vertex.
#[verifier::spinoff_prover]
pub proof fn lemma_pole_unique(t: TriangleModel, k: int)
    requires
        t.normalizable(),
        0 <= k < 3,
        t.comp(k) == t.g3(),
        forall|j: int| 0 <= j < 3 && j != k ==> t.comp(j) == 0,
    ensures
        t.normalized() == vertex_cell(t.gp, t.pole(k)),
        t.normalized().is_cell(),
{
    assert(t.comp(0) == t.c0 && t.comp(1) == t.c1 && t.comp(2) == t.c2);
    if k == 0 {
        assert(t.c1 == 0 && t.c2 == 0);
    } else if k == 1 {
        assert(t.c0 == 0 && t.c2 == 0);
    } else {
        assert(t.c0 == 0 && t.c1 == 0);
    }
}

/// A canonical cell at a vertex of the icosahedron is that vertex's canonical
/// coordinate.
#[verifier::spinoff_prover]
pub proof fn lemma_canonical_pole(t: TriangleModel, k: int)
    requires
        t.is_cell(),
        0 <= k < 3,
        t.comp(k) == t.g3(),
    ensures
        t == vertex_cell(t.gp, t.pole(k)),
{
}

/// A step from a cell lands, after the single normalization that `navigate`
/// does, on a cell again.
#[verifier::spinoff_prover]
pub proof fn lemma_navigate_keeps_cells(t: TriangleModel, d: Direction)
    requires
        t.is_cell(),
    ensures
        t.navigated(d).is_cell(),
        t.navigated(d).gp == t.gp,
{
    lemma_moved_keeps_lattice(t, d);
    lemma_normalized_keeps_lattice(t.moved(d));
    lemma_step_stays_canonical(t, d);
    let n = t.navigated(d);
    assert(n.valid() && n.on_lattice() && n.is_canonical());
}

/// The canonical half of `lemma_navigate_keeps_cells`, one row of faces at a
/// time.
#[verifier::spinoff_prover]
proof fn lemma_step_stays_canonical(t: TriangleModel, d: Direction)
    requires
        t.is_cell(),
    ensures
        t.navigated(d).is_canonical(),
        t.navigated(d).valid(),
        t.navigated(d).gp == t.gp,
{
    if t.lon == 0 {
        lemma_step_from_south_row(t, d);
    } else if t.lon == 1 {
        lemma_step_from_lower_middle_row(t, d);
    } else if t.lon == 2 {
        lemma_step_from_upper_middle_row(t, d);
    } else {
        lemma_step_from_north_row(t, d);
    }
}

#[verifier::spinoff_prover]
proof fn lemma_step_from_south_row(t: TriangleModel, d: Direction)
    requires
        t.is_cell(),
        t.lon == 0,
    ensures
        t.navigated(d).is_canonical(),
        t.navigated(d).valid(),
        t.navigated(d).gp == t.gp,
{
    lemma_cell_residues(t);
    lemma_direction_cases(d);
}

#[verifier::spinoff_prover]
proof fn lemma_step_from_lower_middle_row(t: TriangleModel, d: Direction)
    requires
        t.is_cell(),
        t.lon == 1,
    ensures
        t.navigated(d).is_canonical(),
        t.navigated(d).valid(),
        t.navigated(d).gp == t.gp,
{
    lemma_cell_residues(t);
    lemma_direction_cases(d);
}

#[verifier::spinoff_prover]
proof fn lemma_step_from_upper_middle_row(t: TriangleModel, d: Direction)
    requires
        t.is_cell(),
        t.lon == 2,
    ensures
        t.navigated(d).is_canonical(),
        t.navigated(d).valid(),
        t.navigated(d).gp == t.gp,
{
    lemma_cell_residues(t);
    lemma_direction_cases(d);
}

#[verifier::spinoff_prover]
proof fn lemma_step_from_north_row(t: TriangleModel, d: Direction)
    requires
        t.is_cell(),
        t.lon == 3,
    ensures
        t.navigated(d).is_canonical(),
        t.navigated(d).valid(),
        t.navigated(d).gp == t.gp,
{
    lemma_cell_residues(t);
    lemma_direction_cases(d);
}

/// The three components of a cell agree modulo 3, and so does `3 * gp`.
#[verifier::spinoff_prover]
pub(crate) proof fn lemma_cell_residues(t: TriangleModel)
    requires
        t.is_cell(),
    ensures
        t.c1 % 3 == t.c0 % 3,
        t.c2 % 3 == t.c0 % 3,
        t.g3() % 3 == 0,
        0 <= t.c0 <= t.g3(),
        0 <= t.c1 <= t.g3(),
        0 <= t.c2 <= t.g3(),
{
}

/// Whether the step from `t` to `n` crosses a seam where the frames of the
/// two faces are turned against each other: between two faces of one row
/// (around a pole), or onto an icosahedron vertex stored in another band
/// (but for a vertex reached from row 2 onto row 0).
pub open spec fn crosses_turned_seam(t: TriangleModel, n: TriangleModel) -> bool {
    ||| (n.lon == t.lon && n.lat != t.lat)
    ||| (n.is_pole() && n.lat != t.lat && !(t.lon == 2 && n.lon == 0))
}

/// Stepping back in the opposite direction undoes a step from a cell that is
/// no pole, wherever the step does not cross a turned seam.
#[verifier::spinoff_prover]
pub proof fn lemma_step_back(t: TriangleModel, d: Direction)
    requires
        t.is_cell(),
        !t.is_pole(),
        !crosses_turned_seam(t, t.navigated(d)),
    ensures
        t.navigated(d).navigated(d.opposite()) == t,
{
    if t.lon == 0 {
        lemma_step_back_from_south_row(t, d);
    } else if t.lon == 1 {
        lemma_step_back_from_lower_middle_row(t, d);
    } else if t.lon == 2 {
        lemma_step_back_from_upper_middle_row(t, d);
    } else {
        lemma_step_back_from_north_row(t, d);
    }
}

#[verifier::spinoff_prover]
#[verifier::rlimit(60)]
proof fn lemma_step_back_from_south_row(t: TriangleModel, d: Direction)
    requires
        t.is_cell(),
        t.lon == 0,
        !t.is_pole(),
        !crosses_turned_seam(t, t.navigated(d)),
    ensures
        t.navigated(d).navigated(d.opposite()) == t,
{
    lemma_cell_residues(t);
    lemma_direction_cases(d);
    lemma_step_stays_canonical(t, d);
}

#[verifier::spinoff_prover]
#[verifier::rlimit(60)]
proof fn lemma_step_back_from_lower_middle_row(t: TriangleModel, d: Direction)
    requires
        t.is_cell(),
        t.lon == 1,
        !t.is_pole(),
        !crosses_turned_seam(t, t.navigated(d)),
    ensures
        t.navigated(d).navigated(d.opposite()) == t,
{
    lemma_cell_residues(t);
    lemma_direction_cases(d);
    lemma_step_stays_canonical(t, d);
}

#[verifier::spinoff_prover]
#[verifier::rlimit(60)]
proof fn lemma_step_back_from_upper_middle_row(t: TriangleModel, d: Direction)
    requires
        t.is_cell(),
        t.lon == 2,
        !t.is_pole(),
        !crosses_turned_seam(t, t.navigated(d)),
    ensures
        t.navigated(d).navigated(d.opposite()) == t,
{
    lemma_cell_residues(t);
    lemma_direction_cases(d);
    lemma_step_stays_canonical(t, d);
}

#[verifier::spinoff_prover]
#[verifier::rlimit(60)]
proof fn lemma_step_back_from_north_row(t: TriangleModel, d: Direction)
    requires
        t.is_cell(),
        t.lon == 3,
        !t.is_pole(),
        !crosses_turned_seam(t, t.navigated(d)),
    ensures
        t.navigated(d).navigated(d.opposite()) == t,
{
    lemma_cell_residues(t);
    lemma_direction_cases(d);
    lemma_step_stays_canonical(t, d);
}

#[verifier::spinoff_prover]
proof fn lemma_direction_cases(d: Direction)
    ensures
        d == Direction::NX || d == Direction::PX || d == Direction::NY || d == Direction::PY || d
            == Direction::NZ || d == Direction::PZ,
{
}

/// A raw step keeps a coordinate on the lattice of cells.
#[verifier::spinoff_prover]
proof fn lemma_moved_keeps_lattice(t: TriangleModel, d: Direction)
    requires
        t.normalizable(),
        t.on_lattice(),
    ensures
        t.moved(d).on_lattice(),
{
    lemma_direction_cases(d);
    assert(d.delta(0) - d.delta(1) == 0 || d.delta(0) - d.delta(1) == 3 || d.delta(0) - d.delta(1)
        == -3);
    assert(d.delta(1) - d.delta(2) == 0 || d.delta(1) - d.delta(2) == 3 || d.delta(1) - d.delta(2)
        == -3);
}

/// The transitions of `normalize` keep a coordinate on the lattice of cells.
#[verifier::spinoff_prover]
proof fn lemma_normalized_keeps_lattice(m: TriangleModel)
    requires
        m.normalizable(),
        m.on_lattice(),
    ensures
        m.normalized().on_lattice(),
{
    let r = m.c0 % 3;
    let (a, b, c) = (m.c0 / 3, m.c1 / 3, m.c2 / 3);
    assert(m.c0 == 3 * a + r && m.c1 == 3 * b + r && m.c2 == 3 * c + r);
    if m.lon == 0 {
        lemma_lattice_on_row(m, 3 * a + r, 3 * b + r, 3 * c + r, 0);
    } else if m.lon == 1 {
        lemma_lattice_on_row(m, 3 * a + r, 3 * b + r, 3 * c + r, 1);
    } else if m.lon == 2 {
        lemma_lattice_on_row(m, 3 * a + r, 3 * b + r, 3 * c + r, 2);
    } else {
        lemma_lattice_on_row(m, 3 * a + r, 3 * b + r, 3 * c + r, 3);
    }
}

#[verifier::spinoff_prover]
proof fn lemma_lattice_on_row(m: TriangleModel, c0: int, c1: int, c2: int, row: int)
    requires
        m.normalizable(),
        m.c0 == c0 && m.c1 == c1 && m.c2 == c2,
        (c0 - c1) % 3 == 0,
        (c1 - c2) % 3 == 0,
        m.lon == row,
    ensures
        m.normalized().on_lattice(),
{
    let n = m.normalized();
    assert((n.c0 - n.c1) % 3 == 0 && (n.c1 - n.c2) % 3 == 0);
}

} // verus!
