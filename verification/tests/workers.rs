use raytracer::{get_pixel, subdivide, thread_count, Msg, Sector, ThreadData};

#[test]
fn one_tile_is_the_whole_picture() {
    assert_eq!(subdivide(1, (0, 0, 640, 480)), vec![(0, 0, 640, 480)]);
}

#[test]
fn four_tiles() {
    assert_eq!(
        subdivide(2, (0, 0, 10, 8)),
        vec![(0, 0, 5, 4), (0, 4, 5, 8), (5, 0, 10, 4), (5, 4, 10, 8)]
    );
}

#[test]
fn tiles_come_column_after_column() {
    let tiles = subdivide(3, (0, 0, 9, 6));
    assert_eq!(
        tiles,
        vec![
            (0, 0, 3, 2),
            (0, 2, 3, 4),
            (0, 4, 3, 6),
            (3, 0, 6, 2),
            (3, 2, 6, 4),
            (3, 4, 6, 6),
            (6, 0, 9, 2),
            (6, 2, 9, 4),
            (6, 4, 9, 6),
        ]
    );
}

#[test]
fn a_remainder_is_left_as_margin() {
    let tiles = subdivide(3, (0, 0, 10, 10));
    assert_eq!(tiles.len(), 9);
    assert_eq!(tiles[0], (0, 0, 3, 3));
    assert_eq!(tiles[8], (6, 6, 9, 9));
    assert!(tiles.iter().all(|t| t.2 <= 9 && t.3 <= 9));
}

#[test]
fn tiles_are_laid_out_from_the_origin() {
    assert_eq!(subdivide(2, (2, 2, 12, 10)), subdivide(2, (0, 0, 10, 8)));
}

#[test]
fn more_tiles_than_pixels() {
    assert_eq!(subdivide(2, (0, 0, 1, 1)), vec![(0, 0, 0, 0); 4]);
    assert_eq!(subdivide(2, (5, 5, 5, 5)), vec![(0, 0, 0, 0); 4]);
}

fn holds(s: Sector, x: u64, y: u64) -> bool {
    s.0 <= x && x < s.2 && s.1 <= y && y < s.3
}

#[test]
fn no_pixel_lies_in_two_tiles() {
    for div in 1..6u64 {
        let tiles = subdivide(div, (0, 0, 23, 17));
        assert_eq!(tiles.len() as u64, div * div);
        for x in 0..23 {
            for y in 0..17 {
                let owners = tiles.iter().filter(|t| holds(**t, x, y)).count();
                assert!(owners <= 1);
            }
        }
    }
}

#[test]
fn an_even_cut_covers_the_picture() {
    let tiles = subdivide(4, (0, 0, 24, 16));
    for x in 0..24 {
        for y in 0..16 {
            let owners = tiles.iter().filter(|t| holds(**t, x, y)).count();
            assert_eq!(owners, 1);
        }
    }
}

#[test]
fn workers_quadruple_with_each_round() {
    assert_eq!(thread_count(1), 1);
    assert_eq!(thread_count(2), 4);
    assert_eq!(thread_count(3), 16);
    assert_eq!(thread_count(4), 64);
    assert_eq!(thread_count(32), 4611686018427387904);
}

#[test]
fn an_undrawn_pixel_is_black() {
    assert_eq!(get_pixel((0, 0)), (0, 0, 0));
    assert_eq!(get_pixel((639, 479)), (0, 0, 0));
}

#[test]
fn a_worker_reports_pixels_and_then_its_end() {
    let report = vec![Msg::Draw((3, 4), get_pixel((3, 4))), Msg::End];
    match &report[0] {
        Msg::Draw(at, colour) => {
            assert_eq!(*at, (3, 4));
            assert_eq!(*colour, (0, 0, 0));
        }
        Msg::End => panic!("the first report draws a pixel"),
    }
    assert!(matches!(report[1], Msg::End));
}

#[test]
fn a_worker_owns_its_tile_and_its_generator() {
    let tiles = subdivide(2, (0, 0, 10, 8));
    let workers: Vec<ThreadData> =
        tiles.iter().map(|t| ThreadData { section: *t, rng: rand::thread_rng() }).collect();
    assert_eq!(workers.len(), 4);
    assert_eq!(workers[2].section, (5, 0, 10, 4));
}
