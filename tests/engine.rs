use game_of_life::{App, Stats};

fn grid_with(width: usize, height: usize, live: &[(usize, usize)]) -> Vec<Vec<bool>> {
    let mut grid = vec![vec![false; width]; height];
    for &(x, y) in live {
        grid[y][x] = true;
    }
    grid
}

fn app_with(width: usize, height: usize, live: &[(usize, usize)]) -> App {
    App::from_grid(grid_with(width, height, live)).unwrap()
}

fn live_cells(app: &App) -> Vec<(usize, usize)> {
    let mut out = Vec::new();
    for y in 0..app.height() {
        for x in 0..app.width() {
            if app.is_alive(x, y) {
                out.push((x, y));
            }
        }
    }
    out
}

fn manual_count(app: &App) -> u64 {
    app.grid().iter().map(|r| r.iter().filter(|&&c| c).count() as u64).sum()
}

#[test]
fn stats_new_is_all_zero() {
    let s = Stats::new();
    assert_eq!(s, Stats { generation: 0, cells_created: 0, cells_destroyed: 0, current_population: 0 });
}

#[test]
fn new_has_requested_shape_and_counts_population() {
    let app = App::new(80, 40);
    assert_eq!(app.width(), 80);
    assert_eq!(app.height(), 40);
    assert_eq!(app.grid().len(), 40);
    assert!(app.grid().iter().all(|r| r.len() == 80));
    assert!(!app.is_running());
    let s = app.stats();
    assert_eq!(s.generation, 0);
    assert_eq!(s.cells_created, 0);
    assert_eq!(s.cells_destroyed, 0);
    assert_eq!(s.current_population, manual_count(&app));
    assert_eq!(app.count_total_alive(), manual_count(&app));
}

#[test]
fn new_draws_roughly_three_in_ten_alive() {
    let app = App::new(200, 200);
    let alive = manual_count(&app);
    assert!(alive > 10_000 && alive < 14_000, "{}", alive);
}

#[test]
fn new_single_cell_grid() {
    let app = App::new(1, 1);
    assert_eq!(app.width(), 1);
    assert_eq!(app.height(), 1);
    assert_eq!(app.stats().current_population, manual_count(&app));
}

#[test]
fn from_grid_rejects_empty() {
    assert!(App::from_grid(Vec::new()).is_none());
}

#[test]
fn from_grid_rejects_empty_rows() {
    assert!(App::from_grid(vec![Vec::new(), Vec::new()]).is_none());
}

#[test]
fn from_grid_rejects_ragged_rows() {
    assert!(App::from_grid(vec![vec![true, false], vec![true]]).is_none());
    assert!(App::from_grid(vec![vec![true], vec![true, false]]).is_none());
}

#[test]
fn from_grid_starts_paused_at_generation_zero() {
    let app = app_with(4, 3, &[(0, 0), (3, 2)]);
    assert_eq!(app.width(), 4);
    assert_eq!(app.height(), 3);
    assert!(!app.is_running());
    assert_eq!(
        app.stats(),
        Stats { generation: 0, cells_created: 0, cells_destroyed: 0, current_population: 2 }
    );
    assert_eq!(live_cells(&app), vec![(0, 0), (3, 2)]);
}

#[test]
fn count_neighbors_inside() {
    let app = app_with(5, 5, &[(1, 1), (3, 1), (1, 3), (3, 3), (2, 1)]);
    assert_eq!(app.count_neighbors(2, 2), 5);
    assert_eq!(app.count_neighbors(2, 1), 2);
    assert_eq!(app.count_neighbors(0, 0), 1);
}

#[test]
fn wrap_counts_first_column_for_last_column() {
    let app = app_with(5, 4, &[(0, 1)]);
    assert_eq!(app.count_neighbors(4, 1), 1);
    assert_eq!(app.count_neighbors(4, 0), 1);
    assert_eq!(app.count_neighbors(4, 2), 1);
    assert_eq!(app.count_neighbors(3, 1), 0);
}

#[test]
fn wrap_counts_last_column_for_first_column() {
    let app = app_with(5, 4, &[(4, 2)]);
    assert_eq!(app.count_neighbors(0, 2), 1);
    assert_eq!(app.count_neighbors(0, 1), 1);
    assert_eq!(app.count_neighbors(0, 3), 1);
}

#[test]
fn wrap_counts_first_row_for_last_row() {
    let app = app_with(5, 4, &[(2, 0)]);
    assert_eq!(app.count_neighbors(2, 3), 1);
    assert_eq!(app.count_neighbors(1, 3), 1);
    assert_eq!(app.count_neighbors(3, 3), 1);
    assert_eq!(app.count_neighbors(2, 2), 0);
}

#[test]
fn wrap_counts_corners_diagonally() {
    let app = app_with(5, 4, &[(0, 0)]);
    assert_eq!(app.count_neighbors(4, 3), 1);
    let app = app_with(5, 4, &[(4, 3)]);
    assert_eq!(app.count_neighbors(0, 0), 1);
}

#[test]
fn wrap_gives_birth_across_the_edge() {
    let mut app = app_with(5, 5, &[(0, 1), (0, 2), (0, 3)]);
    app.update();
    assert_eq!(live_cells(&app), vec![(0, 2), (1, 2), (4, 2)]);
}

#[test]
fn single_cell_grid_counts_itself_through_every_offset() {
    let mut app = App::from_grid(vec![vec![true]]).unwrap();
    assert_eq!(app.count_neighbors(0, 0), 8);
    app.update();
    assert!(!app.is_alive(0, 0));
    assert_eq!(app.stats().cells_destroyed, 1);
}

#[test]
fn all_dead_stays_dead() {
    for &(w, h) in &[(3usize, 3usize), (1, 1), (7, 4)] {
        let mut app = app_with(w, h, &[]);
        for _ in 0..3 {
            app.update();
            assert!(live_cells(&app).is_empty());
            assert_eq!(app.stats().current_population, 0);
            assert_eq!(app.stats().cells_created, 0);
            assert_eq!(app.stats().cells_destroyed, 0);
        }
        assert_eq!(app.stats().generation, 3);
    }
}

#[test]
fn lonely_cell_dies() {
    let mut app = app_with(3, 3, &[(1, 1)]);
    assert_eq!(app.count_neighbors(1, 1), 0);
    app.update();
    assert!(live_cells(&app).is_empty());
    assert_eq!(
        app.stats(),
        Stats { generation: 1, cells_created: 0, cells_destroyed: 1, current_population: 0 }
    );
}

#[test]
fn block_is_still_life() {
    let block = vec![(1, 1), (2, 1), (1, 2), (2, 2)];
    let mut app = app_with(4, 4, &block);
    for g in 1..=6u64 {
        app.update();
        assert_eq!(live_cells(&app), block);
        assert_eq!(app.stats().current_population, 4);
        assert_eq!(app.stats().generation, g);
    }
    assert_eq!(app.stats().cells_created, 0);
    assert_eq!(app.stats().cells_destroyed, 0);
}

#[test]
fn blinker_has_period_two() {
    let horizontal = vec![(1, 2), (2, 2), (3, 2)];
    let vertical = vec![(2, 1), (2, 2), (2, 3)];
    let mut app = app_with(5, 5, &horizontal);
    app.update();
    assert_eq!(live_cells(&app), vertical);
    app.update();
    assert_eq!(live_cells(&app), horizontal);
    app.update();
    assert_eq!(live_cells(&app), vertical);
    assert_eq!(app.stats().cells_created, 6);
    assert_eq!(app.stats().cells_destroyed, 6);
    assert_eq!(app.stats().current_population, 3);
}

#[test]
fn blinker_in_first_column_oscillates() {
    let first = vec![(1, 0), (1, 1), (1, 2)];
    let second = vec![(0, 1), (1, 1), (2, 1)];
    let mut app = app_with(5, 5, &first);
    app.update();
    assert_eq!(live_cells(&app), second);
    app.update();
    assert_eq!(live_cells(&app), first);
}

#[test]
fn dead_cell_with_three_neighbours_is_born() {
    let mut app = app_with(5, 5, &[(1, 1), (2, 1), (1, 2)]);
    assert_eq!(app.count_neighbors(2, 2), 3);
    app.update();
    assert!(app.is_alive(2, 2));
    assert_eq!(
        app.stats(),
        Stats { generation: 1, cells_created: 1, cells_destroyed: 0, current_population: 4 }
    );
}

#[test]
fn dead_cell_with_two_neighbours_stays_dead() {
    let mut app = app_with(5, 5, &[(1, 1), (3, 1)]);
    assert_eq!(app.count_neighbors(2, 1), 2);
    app.update();
    assert!(!app.is_alive(2, 1));
    assert_eq!(app.stats().cells_created, 0);
}

#[test]
fn dead_cell_with_four_neighbours_stays_dead() {
    let mut app = app_with(5, 5, &[(1, 1), (3, 1), (1, 3), (3, 3)]);
    assert_eq!(app.count_neighbors(2, 2), 4);
    app.update();
    assert!(!app.is_alive(2, 2));
    assert_eq!(app.stats().cells_created, 0);
    assert_eq!(app.stats().cells_destroyed, 4);
}

#[test]
fn crowded_cell_dies() {
    let mut app = app_with(5, 5, &[(2, 2), (1, 1), (3, 1), (1, 3), (3, 3)]);
    assert_eq!(app.count_neighbors(2, 2), 4);
    app.update();
    assert!(!app.is_alive(2, 2));
}

#[test]
fn update_is_deterministic() {
    let first = App::new(30, 20);
    let mut a = App::from_grid(first.grid().clone()).unwrap();
    let mut b = App::from_grid(first.grid().clone()).unwrap();
    for _ in 0..10 {
        a.update();
        b.update();
        assert_eq!(a.grid(), b.grid());
        assert_eq!(a.stats(), b.stats());
    }
}

#[test]
fn statistics_stay_consistent() {
    let mut app = App::new(80, 40);
    let mut last = app.stats();
    for g in 1..=25u64 {
        let before: Vec<Vec<bool>> = app.grid().clone();
        app.update();
        let s = app.stats();
        let mut born = 0u64;
        let mut died = 0u64;
        for y in 0..40 {
            for x in 0..80 {
                match (before[y][x], app.is_alive(x, y)) {
                    (false, true) => born += 1,
                    (true, false) => died += 1,
                    _ => {}
                }
            }
        }
        assert_eq!(s.generation, g);
        assert_eq!(s.current_population, manual_count(&app));
        assert_eq!(s.current_population, app.count_total_alive());
        assert_eq!(s.cells_created, last.cells_created + born);
        assert_eq!(s.cells_destroyed, last.cells_destroyed + died);
        last = s;
    }
}
