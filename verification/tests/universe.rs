use game_of_life::{Cell, GridError, RandomSource, Universe, MAX_CELLS};

/// A random source that replays a fixed list of flips, round and round, and
/// counts how many were drawn.
struct Replay {
    flips: Vec<bool>,
    drawn: usize,
}

impl Replay {
    fn new(flips: Vec<bool>) -> Replay {
        Replay { flips, drawn: 0 }
    }
}

impl RandomSource for Replay {
    fn flip(&mut self) -> bool {
        let flip = self.flips[self.drawn % self.flips.len()];
        self.drawn += 1;
        flip
    }
}

fn alive_places(universe: &Universe) -> Vec<usize> {
    let mut places = Vec::new();
    for (place, cell) in universe.get_cells().iter().enumerate() {
        if *cell == Cell::Alive {
            places.push(place);
        }
    }
    places
}

fn dead_grid(width: u32, height: u32) -> Universe {
    Universe::with_dead(width, height).expect("dimensions are valid")
}

fn grid_with(width: u32, height: u32, coords: &[(u32, u32)]) -> Universe {
    let mut universe = dead_grid(width, height);
    universe.set_cells(coords).expect("coordinates are in range");
    universe
}

#[test]
fn new_is_64_by_64_and_dead() {
    let universe = Universe::new();
    assert_eq!(universe.width(), 64);
    assert_eq!(universe.height(), 64);
    assert_eq!(universe.get_cells().len(), 4096);
    assert!(universe.get_cells().iter().all(|cell| *cell == Cell::Dead));
}

#[test]
fn cell_encoding_is_zero_and_one() {
    assert_eq!(Cell::Dead.as_u8(), 0);
    assert_eq!(Cell::Alive.as_u8(), 1);
    assert_ne!(Cell::Dead, Cell::Alive);
}

#[test]
fn cell_from_flip() {
    assert_eq!(Cell::from_flip(true), Cell::Alive);
    assert_eq!(Cell::from_flip(false), Cell::Dead);
}

#[test]
fn rule_table() {
    let expected_alive = [
        Cell::Dead,
        Cell::Dead,
        Cell::Alive,
        Cell::Alive,
        Cell::Dead,
        Cell::Dead,
        Cell::Dead,
        Cell::Dead,
        Cell::Dead,
    ];
    for n in 0..=8u8 {
        assert_eq!(Cell::Alive.evolve(n), expected_alive[n as usize], "alive with {}", n);
        let expected_dead = if n == 3 { Cell::Alive } else { Cell::Dead };
        assert_eq!(Cell::Dead.evolve(n), expected_dead, "dead with {}", n);
    }
}

#[test]
fn zero_dimensions_are_rejected() {
    assert_eq!(Universe::with_dead(0, 4).err(), Some(GridError::InvalidDimension));
    assert_eq!(Universe::with_dead(4, 0).err(), Some(GridError::InvalidDimension));
    assert_eq!(Universe::with_dead(0, 0).err(), Some(GridError::InvalidDimension));
    assert_eq!(Universe::with_pattern(0, 4).err(), Some(GridError::InvalidDimension));
    let mut rng = Replay::new(vec![true]);
    assert_eq!(Universe::with_random(4, 0, &mut rng).err(), Some(GridError::InvalidDimension));
    assert_eq!(rng.drawn, 0);
}

#[test]
fn oversized_grid_is_rejected() {
    assert_eq!(Universe::with_dead(65536, 65536).err(), Some(GridError::TooLarge));
    assert_eq!(Universe::with_pattern(u32::MAX, 2).err(), Some(GridError::TooLarge));
    assert_eq!(Universe::with_dead(0, u32::MAX).err(), Some(GridError::InvalidDimension));
    let mut universe = dead_grid(3, 3);
    assert_eq!(universe.set_width(u32::MAX), Err(GridError::TooLarge));
    assert_eq!(universe.width(), 3);
    assert_eq!(universe.get_cells().len(), 9);
}

#[test]
fn pattern_fill_follows_the_formula() {
    let universe = Universe::with_pattern(5, 3).expect("dimensions are valid");
    assert_eq!(universe.width(), 5);
    assert_eq!(universe.height(), 3);
    assert_eq!(alive_places(&universe), vec![0, 2, 4, 6, 7, 8, 10, 12, 14]);
}

#[test]
fn random_fill_takes_one_flip_per_cell_in_order() {
    let mut rng = Replay::new(vec![true, false, false, true, true, false]);
    let universe = Universe::with_random(3, 2, &mut rng).expect("dimensions are valid");
    assert_eq!(rng.drawn, 6);
    assert_eq!(
        universe.get_cells(),
        &[Cell::Alive, Cell::Dead, Cell::Dead, Cell::Alive, Cell::Alive, Cell::Dead][..]
    );
}

#[test]
fn toroidal_wrap_at_the_corner() {
    let (width, height) = (5u32, 4u32);
    let around = [
        (height - 1, width - 1),
        (height - 1, 0),
        (height - 1, 1),
        (0, width - 1),
        (0, 1),
        (1, width - 1),
        (1, 0),
        (1, 1),
    ];
    let mut places: Vec<u32> = around.iter().map(|(row, col)| row * width + col).collect();
    places.sort();
    places.dedup();
    assert_eq!(places.len(), 8);
    assert!(!places.contains(&0));
    for (k, coord) in around.iter().enumerate() {
        let universe = grid_with(width, height, &[*coord]);
        assert_eq!(universe.live_neighbour_count(0, 0), 1, "neighbour {}", k);
    }
    let universe = grid_with(width, height, &around);
    assert_eq!(universe.live_neighbour_count(0, 0), 8);
    let only_self = grid_with(width, height, &[(0, 0)]);
    assert_eq!(only_self.live_neighbour_count(0, 0), 0);
    let far = grid_with(width, height, &[(2, 2), (2, 0), (0, 2), (0, 3), (2, 4)]);
    assert_eq!(far.live_neighbour_count(0, 0), 0);
}

#[test]
fn neighbour_count_in_the_middle_and_at_the_far_corner() {
    let universe = grid_with(4, 4, &[(0, 0), (0, 3), (3, 0), (2, 2), (1, 1)]);
    assert_eq!(universe.live_neighbour_count(3, 3), 4);
    assert_eq!(universe.live_neighbour_count(1, 1), 2);
    assert_eq!(universe.live_neighbour_count(2, 1), 3);
    assert_eq!(universe.live_neighbour_count(1, 3), 3);
}

#[test]
fn neighbour_count_goes_round_for_coordinates_beyond_the_grid() {
    let universe = grid_with(4, 4, &[(0, 1), (3, 3)]);
    assert_eq!(universe.live_neighbour_count(4, 4), universe.live_neighbour_count(0, 0));
    assert_eq!(universe.live_neighbour_count(0, 0), 2);
}

#[test]
fn neighbour_count_on_a_single_cell_grid() {
    let dead = dead_grid(1, 1);
    assert_eq!(dead.live_neighbour_count(0, 0), 0);
    let alive = grid_with(1, 1, &[(0, 0)]);
    assert_eq!(alive.live_neighbour_count(0, 0), 5);
}

#[test]
fn blinker_oscillates() {
    let mut universe = grid_with(4, 4, &[(1, 1), (1, 2), (1, 3)]);
    let mut rng = Replay::new(vec![true]);
    assert_eq!(alive_places(&universe), vec![5, 6, 7]);
    universe.tick(&mut rng);
    assert_eq!(alive_places(&universe), vec![2, 6, 10]);
    universe.tick(&mut rng);
    assert_eq!(alive_places(&universe), vec![5, 6, 7]);
    assert_eq!(rng.drawn, 0);
}

#[test]
fn glider_travels_one_cell_down_and_right_in_four_ticks() {
    let mut universe = grid_with(8, 8, &[(0, 1), (1, 2), (2, 0), (2, 1), (2, 2)]);
    let mut rng = Replay::new(vec![true]);
    universe.tick(&mut rng);
    assert_eq!(alive_places(&universe), vec![8, 10, 17, 18, 25]);
    for _ in 0..3 {
        universe.tick(&mut rng);
    }
    let moved = grid_with(8, 8, &[(1, 2), (2, 3), (3, 1), (3, 2), (3, 3)]);
    assert_eq!(universe.get_cells(), moved.get_cells());
    assert_eq!(rng.drawn, 0);
}

#[test]
fn largest_grid_size_is_the_32_bit_limit() {
    assert_eq!(MAX_CELLS, 4_294_967_295);
    assert_eq!(Universe::with_dead(65536, 65536).err(), Some(GridError::TooLarge));
    assert_eq!(Universe::with_dead(65537, 65536).err(), Some(GridError::TooLarge));
    assert_eq!(Universe::with_dead(1000, 1000).err(), None);
}

#[test]
fn next_generation_leaves_the_universe_alone() {
    let universe = grid_with(4, 4, &[(1, 1), (1, 2), (1, 3)]);
    let next = universe.next_generation();
    assert_eq!(alive_places(&universe), vec![5, 6, 7]);
    let alive: Vec<usize> = (0..next.len()).filter(|i| next[*i] == Cell::Alive).collect();
    assert_eq!(alive, vec![2, 6, 10]);
}

#[test]
fn block_is_stable_under_the_rule() {
    let block = [(1, 1), (1, 2), (2, 1), (2, 2)];
    let universe = grid_with(6, 6, &block);
    for (row, col) in block {
        assert_eq!(universe.live_neighbour_count(row, col), 3);
    }
    assert_eq!(universe.next_generation(), universe.get_cells().to_vec());
    assert_eq!(alive_places(&universe), vec![7, 8, 13, 14]);
}

#[test]
fn block_is_reseeded_because_it_is_frozen() {
    let block = [(1, 1), (1, 2), (2, 1), (2, 2)];
    let mut universe = grid_with(6, 6, &block);
    let mut quiet = Replay::new(vec![false]);
    universe.tick(&mut quiet);
    assert_eq!(quiet.drawn, 36);
    assert!(universe.get_cells().iter().all(|cell| *cell == Cell::Dead));
}

#[test]
fn frozen_grid_is_drawn_afresh() {
    let mut universe = grid_with(6, 6, &[(1, 1), (1, 2), (2, 1), (2, 2)]);
    let frozen: Vec<Cell> = universe.get_cells().to_vec();
    let mut rng = Replay::new(vec![true, false, false]);
    universe.tick(&mut rng);
    let expected: Vec<Cell> = (0..36)
        .map(|i| if i % 3 == 0 { Cell::Alive } else { Cell::Dead })
        .collect();
    assert_eq!(universe.get_cells(), &expected[..]);
    assert_ne!(universe.get_cells(), &frozen[..]);
    assert_eq!(universe.width(), 6);
    assert_eq!(universe.height(), 6);
}

#[test]
fn dead_grid_is_reseeded_on_tick() {
    let mut universe = dead_grid(3, 2);
    let mut rng = Replay::new(vec![false, true]);
    universe.tick(&mut rng);
    assert_eq!(rng.drawn, 6);
    assert_eq!(alive_places(&universe), vec![1, 3, 5]);
}

#[test]
fn lonely_cell_dies() {
    let mut universe = grid_with(5, 5, &[(2, 2)]);
    let mut rng = Replay::new(vec![true]);
    universe.tick(&mut rng);
    assert_eq!(alive_places(&universe), Vec::<usize>::new());
    assert_eq!(rng.drawn, 0);
}

#[test]
fn render_twice_gives_the_same_text() {
    let universe = grid_with(4, 3, &[(0, 0), (1, 2), (2, 3)]);
    let first = universe.render();
    let second = universe.render();
    assert_eq!(first, second);
}

#[test]
fn render_is_glyphs_and_line_feeds() {
    let universe = grid_with(3, 2, &[(0, 1), (1, 0), (1, 2)]);
    assert_eq!(universe.render(), "\u{25FB}\u{25FC}\u{25FB}\n\u{25FC}\u{25FB}\u{25FC}\n");
    let single = dead_grid(1, 1);
    assert_eq!(single.render(), "\u{25FB}\n");
}

#[test]
fn set_cells_sets_exactly_the_named_cell() {
    let (width, height) = (7u32, 5u32);
    let mut universe = dead_grid(width, height);
    assert_eq!(universe.set_cells(&[(2, 3)]), Ok(()));
    assert_eq!(alive_places(&universe), vec![(2 * width + 3) as usize]);
    assert_eq!(universe.get_cells().len(), (width * height) as usize);
}

#[test]
fn set_cells_keeps_live_cells_and_takes_repeats() {
    let mut universe = grid_with(4, 4, &[(0, 0), (3, 3)]);
    assert_eq!(universe.set_cells(&[(3, 3), (1, 2), (1, 2)]), Ok(()));
    assert_eq!(alive_places(&universe), vec![0, 6, 15]);
    assert_eq!(universe.set_cells(&[]), Ok(()));
    assert_eq!(alive_places(&universe), vec![0, 6, 15]);
}

#[test]
fn set_cells_rejects_coordinates_outside_the_grid() {
    let mut universe = grid_with(4, 3, &[(1, 1)]);
    assert_eq!(universe.set_cells(&[(3, 0)]), Err(GridError::OutOfRangeCoordinate));
    assert_eq!(universe.set_cells(&[(0, 4)]), Err(GridError::OutOfRangeCoordinate));
    assert_eq!(universe.set_cells(&[(0, 0), (2, 5)]), Err(GridError::OutOfRangeCoordinate));
    assert_eq!(alive_places(&universe), vec![5]);
    assert_eq!(universe.set_cells(&[(2, 3)]), Ok(()));
    assert_eq!(alive_places(&universe), vec![5, 11]);
}

#[test]
fn set_width_resets_to_dead_cells() {
    let mut universe = grid_with(4, 4, &[(1, 1), (1, 2), (1, 3)]);
    let mut rng = Replay::new(vec![true]);
    universe.tick(&mut rng);
    universe.tick(&mut rng);
    universe.tick(&mut rng);
    assert_eq!(universe.set_width(7), Ok(()));
    assert_eq!(universe.width(), 7);
    assert_eq!(universe.height(), 4);
    assert_eq!(universe.get_cells().len(), 28);
    assert!(universe.get_cells().iter().all(|cell| *cell == Cell::Dead));
}

#[test]
fn set_height_resets_to_dead_cells() {
    let mut universe = Universe::with_pattern(4, 4).expect("dimensions are valid");
    assert_eq!(universe.set_height(2), Ok(()));
    assert_eq!(universe.width(), 4);
    assert_eq!(universe.height(), 2);
    assert_eq!(universe.get_cells().len(), 8);
    assert!(universe.get_cells().iter().all(|cell| *cell == Cell::Dead));
}

#[test]
fn zero_resize_is_rejected_and_changes_nothing() {
    let mut universe = grid_with(4, 4, &[(1, 1)]);
    assert_eq!(universe.set_width(0), Err(GridError::InvalidDimension));
    assert_eq!(universe.set_height(0), Err(GridError::InvalidDimension));
    assert_eq!(universe.width(), 4);
    assert_eq!(universe.height(), 4);
    assert_eq!(alive_places(&universe), vec![5]);
}

#[test]
fn buffer_length_is_width_times_height() {
    let mut universe = Universe::with_pattern(5, 3).expect("dimensions are valid");
    let mut rng = Replay::new(vec![true, true, false]);
    for _ in 0..6 {
        universe.tick(&mut rng);
        assert_eq!(
            universe.get_cells().len(),
            (universe.width() * universe.height()) as usize
        );
        assert_eq!(universe.cells().len(), universe.get_cells().len());
    }
    universe.set_height(9).expect("dimensions are valid");
    assert_eq!(universe.get_cells().len(), 45);
    universe.set_cells(&[(8, 4)]).expect("coordinates are in range");
    assert_eq!(universe.get_cells().len(), 45);
}

#[test]
fn cells_and_get_cells_show_the_same_buffer() {
    let universe = grid_with(3, 3, &[(0, 0), (2, 2)]);
    assert_eq!(universe.cells().as_slice(), universe.get_cells());
    let bytes: Vec<u8> = universe.cells().iter().map(|cell| cell.as_u8()).collect();
    assert_eq!(bytes, vec![1, 0, 0, 0, 0, 0, 0, 0, 1]);
}
