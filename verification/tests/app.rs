use game_of_life::app::Action;
use game_of_life::app::App;
use game_of_life::app::InputEvent;
use game_of_life::app::KeyCode;
use game_of_life::app::State;
use game_of_life::render::DiffRenderer;
use game_of_life::render::TitleOp;
use rand::SeedableRng;
use rand::distributions::Bernoulli;
use rand::rngs::SmallRng;

fn make_app(start: usize, step: usize, count: usize) -> App {
    let distr = Bernoulli::new(0.5).unwrap();
    let rng = SmallRng::seed_from_u64(42);
    App::new(start, step, count, 8, 6, distr, rng)
}

#[test]
fn new_app_starts_in_initial_at_the_start_index() {
    let app = make_app(3, 2, 10);
    assert_eq!(app.state(), State::Initial);
    assert_eq!(app.generation().index(), 3);
    assert_eq!(app.generation().width(), 8);
    assert_eq!(app.generation().height(), 6);
}

#[test]
fn start_running_moves_to_running() {
    let mut app = make_app(0, 1, 5);
    app.start_running();
    assert_eq!(app.state(), State::Running);
    assert_eq!(app.generation().index(), 0);
}

#[test]
fn update_advances_by_step_and_spends_budget() {
    let mut app = make_app(0, 3, 4);
    app.start_running();
    app.update();
    assert_eq!(app.state(), State::Running);
    assert_eq!(app.generation().index(), 3);
    app.update();
    assert_eq!(app.generation().index(), 6);
}

#[test]
fn exhausted_budget_finishes_the_loop() {
    // count = 2 arms a budget of one tick.
    let mut app = make_app(0, 1, 2);
    app.start_running();
    app.update();
    assert_eq!(app.state(), State::Running);
    assert_eq!(app.generation().index(), 1);
    app.update();
    assert_eq!(app.state(), State::Finished);
    // The finishing tick does not advance the generation.
    assert_eq!(app.generation().index(), 1);
}

#[test]
fn exit_action_finishes() {
    let mut app = make_app(0, 1, 5);
    app.start_running();
    app.handle_input(Action::Exit);
    assert_eq!(app.state(), State::Finished);
}

#[test]
fn unmapped_action_changes_nothing() {
    let mut app = make_app(2, 1, 5);
    app.start_running();
    let index_before = app.generation().index();
    app.handle_input(Action::Unmapped);
    assert_eq!(app.state(), State::Running);
    assert_eq!(app.generation().index(), index_before);
}

#[test]
fn restart_reseeds_and_restores_the_budget() {
    let mut app = make_app(5, 2, 4);
    app.start_running();
    app.update();
    assert_eq!(app.generation().index(), 7);
    app.handle_input(Action::Restart);
    assert_eq!(app.state(), State::Initial);
    assert_eq!(app.generation().index(), 5);
    assert_eq!(app.generation().width(), 8);
    assert_eq!(app.generation().height(), 6);
    // The restored budget allows the same number of ticks again.
    app.start_running();
    app.update();
    app.update();
    app.update();
    assert_eq!(app.state(), State::Running);
    app.update();
    assert_eq!(app.state(), State::Finished);
}

#[test]
fn key_to_action_mapping() {
    let key = |c: char, ctrl: bool| InputEvent::Key { code: KeyCode::Char(c), ctrl };
    assert_eq!(Action::for_event(&key('r', false)), Action::Restart);
    assert_eq!(Action::for_event(&key('r', true)), Action::Restart);
    assert_eq!(Action::for_event(&key('q', false)), Action::Exit);
    assert_eq!(Action::for_event(&key('c', true)), Action::Exit);
    assert_eq!(Action::for_event(&key('c', false)), Action::Unmapped);
    assert_eq!(Action::for_event(&key('x', false)), Action::Unmapped);
    assert_eq!(
        Action::for_event(&InputEvent::Key { code: KeyCode::Esc, ctrl: false }),
        Action::Exit
    );
    assert_eq!(
        Action::for_event(&InputEvent::Key { code: KeyCode::Other, ctrl: false }),
        Action::Unmapped
    );
    assert_eq!(Action::for_event(&InputEvent::Other), Action::Unmapped);
}

#[test]
fn app_drives_renderer_through_a_session() {
    // The application loop without a terminal: render into frames, as the
    // embedding loop would, and watch the title decisions.
    let mut app = make_app(0, 1, 3);
    let mut renderer = DiffRenderer::new();

    let first = renderer.render(app.generation());
    assert!(first.clear_all);
    assert_eq!(first.title, TitleOp::Full);
    app.start_running();

    app.update();
    let second = renderer.render(app.generation());
    assert!(!second.clear_all);
    assert_eq!(second.title, TitleOp::Partial);
    assert_eq!(second.index, 1);

    let third = renderer.render(app.generation());
    assert_eq!(third.title, TitleOp::Nop);
    assert_eq!(third.cells.len(), 0);
}
