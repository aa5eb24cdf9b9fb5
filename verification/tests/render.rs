use game_of_life::game::Cell;
use game_of_life::game::Generation;
use game_of_life::game::Position;
use game_of_life::render::CellDraw;
use game_of_life::render::DiffRenderer;
use game_of_life::render::Frame;
use game_of_life::render::TitleOp;
use std::collections::HashMap;

/// A screen model for the tests: applies frames the way a terminal would.
#[derive(Default)]
struct Screen {
    cells: HashMap<(usize, usize), Cell>,
    title: Option<usize>,
}

impl Screen {
    fn apply(&mut self, frame: &Frame) {
        if frame.clear_all {
            self.cells.clear();
            self.title = None;
        }
        for cd in &frame.cells {
            self.cells.insert((cd.x, cd.y), cd.cell);
        }
        match frame.title {
            TitleOp::Full | TitleOp::Partial => self.title = Some(frame.index),
            TitleOp::Nop => {}
        }
    }
}

#[test]
fn first_render_is_a_full_redraw() {
    let mut g = Generation::filled(4, 3, 2, Cell::Dead);
    g.set_cell(Position(1, 1), Cell::Alive);
    let mut renderer = DiffRenderer::new();
    let frame = renderer.render(&g);
    assert!(frame.clear_all);
    assert_eq!(frame.title, TitleOp::Full);
    assert_eq!(frame.index, 4);
    assert_eq!(frame.cells.len(), 6);
    // Row-major order, every cell drawn with its state.
    let mut expected = Vec::new();
    for y in 0..2usize {
        for x in 0..3usize {
            let cell = if (x, y) == (1, 1) { Cell::Alive } else { Cell::Dead };
            expected.push(CellDraw { x, y, cell });
        }
    }
    assert_eq!(frame.cells, expected);
}

#[test]
fn identical_rerender_emits_nothing() {
    let mut g = Generation::filled(0, 4, 4, Cell::Dead);
    g.set_cell(Position(2, 2), Cell::Alive);
    let mut renderer = DiffRenderer::new();
    renderer.render(&g);
    let again = renderer.render(&g.clone());
    assert!(!again.clear_all);
    assert_eq!(again.title, TitleOp::Nop);
    assert_eq!(again.cells.len(), 0);
}

#[test]
fn single_change_emits_single_draw() {
    let g = Generation::filled(0, 4, 4, Cell::Dead);
    let mut renderer = DiffRenderer::new();
    renderer.render(&g);
    let mut h = g.clone();
    h.set_cell(Position(3, 1), Cell::Alive);
    let frame = renderer.render(&h);
    assert!(!frame.clear_all);
    // Same index: the title is untouched.
    assert_eq!(frame.title, TitleOp::Nop);
    assert_eq!(frame.cells, vec![CellDraw { x: 3, y: 1, cell: Cell::Alive }]);
}

#[test]
fn index_change_redraws_only_the_suffix() {
    let g = Generation::filled(0, 3, 3, Cell::Dead);
    let mut renderer = DiffRenderer::new();
    renderer.render(&g);
    let next = g.next();
    let frame = renderer.render(&next);
    assert!(!frame.clear_all);
    assert_eq!(frame.title, TitleOp::Partial);
    assert_eq!(frame.index, 1);
    // An empty grid stays empty, so no cell changed.
    assert_eq!(frame.cells.len(), 0);
}

#[test]
fn resize_forces_a_full_redraw() {
    let g = Generation::filled(0, 4, 4, Cell::Dead);
    let mut renderer = DiffRenderer::new();
    renderer.render(&g);
    // Same index, same (dead) content where the grids overlap: only the
    // width differs, and everything is still redrawn.
    let wider = Generation::filled(0, 5, 4, Cell::Dead);
    let frame = renderer.render(&wider);
    assert!(frame.clear_all);
    assert_eq!(frame.title, TitleOp::Full);
    assert_eq!(frame.cells.len(), 20);
}

#[test]
fn incremental_chain_matches_full_redraw_of_last() {
    // Drive one renderer through a sequence of generations, growing and
    // evolving, and apply every frame to a model screen.
    let mut seed = Generation::filled(0, 6, 5, Cell::Dead);
    seed.set_cell(Position(1, 2), Cell::Alive);
    seed.set_cell(Position(2, 2), Cell::Alive);
    seed.set_cell(Position(3, 2), Cell::Alive);

    let gens = vec![
        seed.clone(),
        seed.next(),
        Generation::nth_after(&seed, 2),
        Generation::filled(5, 4, 7, Cell::Alive),
        Generation::nth_after(&seed, 3),
    ];

    let mut incremental = Screen::default();
    let mut chained = DiffRenderer::new();
    for g in &gens {
        let frame = chained.render(g);
        incremental.apply(&frame);
    }

    let mut full = Screen::default();
    let mut fresh = DiffRenderer::new();
    let last = gens.last().unwrap();
    full.apply(&fresh.render(last));

    assert_eq!(incremental.title, full.title);
    assert_eq!(incremental.cells, full.cells);
}
