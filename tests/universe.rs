use wasm_game_of_life::{Cell, Universe};

fn grid(width: u32, height: u32, alive: &[(u32, u32)]) -> Universe {
    let mut u = Universe::new();
    u.set_width(width);
    u.set_height(height);
    u.set_cells(alive);
    u
}

fn alive_at(u: &Universe) -> Vec<(u32, u32)> {
    let mut out = Vec::new();
    for (i, c) in u.get_cells().iter().enumerate() {
        if *c == Cell::Alive {
            out.push((i as u32 / u.width(), i as u32 % u.width()));
        }
    }
    out
}

#[test]
fn new_has_default_size_and_seed_pattern() {
    let u = Universe::new();
    assert_eq!(u.width(), 128);
    assert_eq!(u.height(), 128);
    let cells = u.get_cells();
    assert_eq!(cells.len(), 128 * 128);
    for (i, c) in cells.iter().enumerate() {
        let expected = if i % 2 == 0 || i % 7 == 0 { Cell::Alive } else { Cell::Dead };
        assert_eq!(*c, expected, "cell {}", i);
    }
    assert_eq!(cells[0], Cell::Alive);
    assert_eq!(cells[1], Cell::Dead);
    assert_eq!(cells[7], Cell::Alive);
    assert_eq!(cells[9], Cell::Dead);
    assert_eq!(cells[21], Cell::Alive);
}

#[test]
fn buffer_size_follows_dimensions() {
    let mut u = Universe::new();
    u.set_width(7);
    assert_eq!(u.get_cells().len(), 7 * 128);
    u.set_height(3);
    assert_eq!(u.get_cells().len(), 21);
    assert_eq!((u.width(), u.height()), (7, 3));
    u.tick();
    assert_eq!(u.get_cells().len(), 21);
    u.set_cells(&[(2, 6)]);
    assert_eq!(u.get_cells().len(), 21);
}

#[test]
fn tick_is_deterministic() {
    let mut a = Universe::new();
    let mut b = Universe::new();
    a.tick();
    b.tick();
    assert_eq!(a.get_cells(), b.get_cells());
    a.tick();
    b.tick();
    assert_eq!(a.get_cells(), b.get_cells());
}

#[test]
fn tick_changes_default_universe() {
    let mut u = Universe::new();
    let before = u.get_cells().to_vec();
    u.tick();
    assert_ne!(u.get_cells(), before.as_slice());
}

#[test]
fn corner_cell_wraps_on_both_axes() {
    // Three live cells around (0, 0), each across an edge from the others:
    // (0, 0) then has three live neighbors and stays alive, and (n-1, n-1),
    // which sees them all across both edges, is born.
    let n = 5;
    let mut u = grid(n, n, &[(0, n - 1), (n - 1, 0), (0, 0)]);
    u.tick();
    let alive = alive_at(&u);
    assert!(alive.contains(&(0, 0)));
    assert!(alive.contains(&(n - 1, n - 1)));
    assert!(alive.contains(&(0, n - 1)));
    assert!(alive.contains(&(n - 1, 0)));
    assert_eq!(alive.len(), 4);
}

#[test]
fn blinker_across_edge_wraps() {
    let mut u = grid(5, 5, &[(0, 4), (0, 0), (0, 1)]);
    u.tick();
    assert_eq!(alive_at(&u), vec![(0, 0), (1, 0), (4, 0)]);
    u.tick();
    assert_eq!(alive_at(&u), vec![(0, 0), (0, 1), (0, 4)]);
}

#[test]
fn block_is_still_life() {
    let mut u = grid(4, 4, &[(1, 1), (1, 2), (2, 1), (2, 2)]);
    let before = u.get_cells().to_vec();
    u.tick();
    assert_eq!(u.get_cells(), before.as_slice());
    u.tick();
    assert_eq!(u.get_cells(), before.as_slice());
}

#[test]
fn blinker_oscillates() {
    let mut u = grid(5, 5, &[(2, 1), (2, 2), (2, 3)]);
    u.tick();
    assert_eq!(alive_at(&u), vec![(1, 2), (2, 2), (3, 2)]);
    u.tick();
    assert_eq!(alive_at(&u), vec![(2, 1), (2, 2), (2, 3)]);
}

#[test]
fn lone_cell_dies() {
    let mut u = grid(6, 6, &[(3, 3)]);
    u.tick();
    assert!(alive_at(&u).is_empty());
}

#[test]
fn three_neighbors_give_birth() {
    let mut u = grid(6, 6, &[(1, 1), (1, 2), (2, 1)]);
    u.tick();
    assert_eq!(alive_at(&u), vec![(1, 1), (1, 2), (2, 1), (2, 2)]);
}

#[test]
fn crowded_cell_dies() {
    // The center has four live neighbors and dies; the corners of the plus
    // shape are born.
    let mut u = grid(7, 7, &[(2, 3), (3, 2), (3, 3), (3, 4), (4, 3)]);
    u.tick();
    let alive = alive_at(&u);
    assert!(!alive.contains(&(3, 3)));
    assert!(alive.contains(&(2, 2)));
    assert!(alive.contains(&(4, 4)));
}

#[test]
fn single_cell_grid_counts_itself() {
    // On a 1x1 grid the five offsets other than (0, 0) all name the cell
    // itself: a live cell sees five live neighbors and dies.
    let mut u = grid(1, 1, &[(0, 0)]);
    u.tick();
    assert_eq!(u.get_cells(), &[Cell::Dead]);
    u.tick();
    assert_eq!(u.get_cells(), &[Cell::Dead]);
}

#[test]
fn two_by_two_grid_counts_duplicates() {
    // On a 2x2 grid each neighbor is reached twice on each axis it differs on:
    // one live cell is seen twice by cells in its row or column and four
    // times by the diagonal cell.
    let mut u = grid(2, 2, &[(0, 0)]);
    u.tick();
    assert!(alive_at(&u).is_empty());
    let mut v = grid(2, 2, &[(0, 0), (0, 1)]);
    v.tick();
    // each cell of row 1 sees six live neighbors, each live cell sees two
    assert_eq!(alive_at(&v), vec![(0, 0), (0, 1)]);
}

#[test]
fn resize_width_clears_state() {
    let mut u = grid(4, 4, &[(0, 0), (1, 1), (3, 3)]);
    u.set_width(9);
    assert_eq!(u.width(), 9);
    assert_eq!(u.height(), 4);
    assert_eq!(u.get_cells().len(), 36);
    assert!(u.get_cells().iter().all(|c| *c == Cell::Dead));
    let mut v = Universe::new();
    v.set_width(128);
    assert!(v.get_cells().iter().all(|c| *c == Cell::Dead));
}

#[test]
fn resize_height_clears_state() {
    let mut u = grid(4, 4, &[(2, 2)]);
    u.set_height(2);
    assert_eq!(u.get_cells(), &[Cell::Dead; 8]);
}

#[test]
fn zero_width_grid_is_empty() {
    let mut u = Universe::new();
    u.set_width(0);
    assert!(u.get_cells().is_empty());
    u.tick();
    assert!(u.get_cells().is_empty());
    assert_eq!(u.render(), "\n".repeat(128));
    u.set_height(0);
    assert_eq!(u.render(), "");
}

#[test]
fn set_cells_leaves_others() {
    let mut u = grid(3, 2, &[(0, 1)]);
    u.set_cells(&[(1, 2), (0, 1)]);
    assert_eq!(
        u.get_cells(),
        &[Cell::Dead, Cell::Alive, Cell::Dead, Cell::Dead, Cell::Dead, Cell::Alive]
    );
    u.set_cells(&[]);
    assert_eq!(alive_at(&u), vec![(0, 1), (1, 2)]);
}

#[test]
fn render_exact_text() {
    let u = grid(3, 2, &[(0, 1), (1, 2)]);
    assert_eq!(u.render(), "◻◼◻\n◻◻◼\n");
}

#[test]
fn render_round_trip() {
    let mut u = Universe::new();
    u.set_width(6);
    u.set_height(4);
    u.set_cells(&[(0, 0), (1, 5), (3, 2), (2, 2)]);
    let text = u.render();
    let lines: Vec<&str> = text.split_terminator('\n').collect();
    assert_eq!(lines.len(), 4);
    assert!(text.ends_with('\n'));
    let mut decoded = Vec::new();
    for line in &lines {
        assert_eq!(line.chars().count(), 6);
        for ch in line.chars() {
            decoded.push(if ch == '◼' { Cell::Alive } else if ch == '◻' { Cell::Dead } else { panic!("glyph {}", ch) });
        }
    }
    assert_eq!(decoded.as_slice(), u.get_cells());
    let fresh = Universe::new().render();
    assert_eq!(fresh.lines().count(), 128);
    assert!(fresh.starts_with("◼◻◼◻◼◻◼◼◼"));
}
