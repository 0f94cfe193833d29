use planet_grid::parallelogram::ParallelogramCoordinate;
use planet_grid::planet::{Field, Planet};
use planet_grid::triangle::TriangleCoordinate;

#[test]
fn new_planet_has_one_field_per_cell() {
    let planet = Planet::new(5);
    assert_eq!(planet.gp_index, 5);
    assert_eq!(planet.field_count(), 752);
    for i in 0..planet.field_count() {
        let f = planet.field(i);
        assert!(f.terrain() < 5);
        assert_eq!(f.selection(), (0, 0, 0));
    }
}

#[test]
fn new_planet_terrain_varies() {
    let planet = Planet::new(3);
    let first = planet.field(0).terrain();
    assert!((0..planet.field_count()).any(|i| planet.field(i).terrain() != first));
}

#[test]
fn field_encoding_packs_nibbles() {
    let f = Field::new(3, (1, 2, 3));
    assert_eq!(f.encode(), (3 | (1 << 4), (2 << 4) | 3));
    assert_eq!(f.encode(), (19, 35));
    let f = Field::new(4, (15, 15, 15));
    assert_eq!(f.encode(), (244, 255));
}

#[test]
fn set_field_replaces_one_field() {
    let mut planet = Planet::new(2);
    let before = planet.field(7).terrain();
    planet.set_field(8, Field::new(2, (0, 1, 0)));
    assert_eq!(planet.field(8).terrain(), 2);
    assert_eq!(planet.field(8).selection(), (0, 1, 0));
    assert_eq!(planet.field(7).terrain(), before);
}

#[test]
fn texture_has_bordered_blocks() {
    for g in 1..=5 {
        let planet = Planet::new(g);
        let pixels = planet.generate_terrain_and_selection_texture();
        let block_width = ParallelogramCoordinate::parallelogram_width(g) + 3;
        let block_height = ParallelogramCoordinate::parallelogram_height(g) + 4;
        assert_eq!(pixels.len(), 5 * block_width * block_height);
        assert!(pixels.iter().all(|p| *p != (255, 255)));
    }
}

#[test]
fn texture_shows_the_field_of_each_cell() {
    let g = 2;
    let mut planet = Planet::new(g);
    let cell = ParallelogramCoordinate::new(g, [1, 1], 3);
    let index = cell.index_in_total();
    planet.set_field(index, Field::new(3, (1, 2, 3)));
    let pixels = planet.generate_terrain_and_selection_texture();
    let block_width = ParallelogramCoordinate::parallelogram_width(g) + 3;
    // the rectangle starts one column and two rows into the block
    let (x, y, lat) = (1 + 1, 1 + 2, 3);
    assert_eq!(pixels[y * 5 * block_width + lat * block_width + x], (19, 35));
}

#[test]
fn texture_border_repeats_neighbouring_cells() {
    let g = 3;
    let planet = Planet::new(g);
    let pixels = planet.generate_terrain_and_selection_texture();
    let block_width = ParallelogramCoordinate::parallelogram_width(g) + 3;
    let row = 5 * block_width;
    // column 0 of band 1's block shows cells of the band to its west
    for y in 2..(ParallelogramCoordinate::parallelogram_height(g) + 2) {
        let p = ParallelogramCoordinate::new(g, [-1, y as isize - 2], 1);
        let mut t = TriangleCoordinate::from_parallelogram_coordinate(&p);
        let source = if t.normalize() { ParallelogramCoordinate::from_triangle_coordinate(&t) } else { p };
        let expected = planet.field(source.index_in_total()).encode();
        assert_eq!(pixels[y * row + block_width], expected);
    }
}
