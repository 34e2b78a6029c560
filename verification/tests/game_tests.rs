use invaders::frame::BLANK;
use invaders::game::{action_for_key, cue_name, Action, Cue, Game, Key, Outcome};
use invaders::invaders::{Invader, Invaders};
use invaders::player::{Player, Shot};

fn tiny_game(width: usize, height: usize, army: Vec<Invader>) -> Game {
    Game {
        player: Player {
            width,
            height,
            x: width / 2,
            y: height - 1,
            shots: Vec::new(),
            shot_timer: 0,
        },
        invaders: Invaders {
            width,
            height,
            army,
            direction: 1,
            move_timer: 1000,
        },
    }
}

#[test]
fn keys_map_to_their_actions() {
    assert_eq!(action_for_key(Key::Esc), Action::Quit);
    assert_eq!(action_for_key(Key::Char('q')), Action::Quit);
    assert_eq!(action_for_key(Key::Enter), Action::Shoot);
    assert_eq!(action_for_key(Key::Char(' ')), Action::Shoot);
    assert_eq!(action_for_key(Key::Left), Action::MoveLeft);
    assert_eq!(action_for_key(Key::Right), Action::MoveRight);
    assert_eq!(action_for_key(Key::Char('x')), Action::Ignore);
    assert_eq!(action_for_key(Key::Other), Action::Ignore);
}

#[test]
fn cues_have_their_registered_names() {
    assert_eq!(cue_name(Cue::Startup), "startup");
    assert_eq!(cue_name(Cue::Pew), "pew");
    assert_eq!(cue_name(Cue::Explode), "explode");
    assert_eq!(cue_name(Cue::Move), "move");
    assert_eq!(cue_name(Cue::Win), "win");
    assert_eq!(cue_name(Cue::Lose), "lose");
}

#[test]
fn quit_keys_end_the_session_with_the_losing_cue() {
    let mut g = Game::new(12, 8);
    let before_x = g.player.x;
    let effect = g.handle_key(Key::Esc);
    assert!(effect.quit);
    assert_eq!(effect.cue, Some(Cue::Lose));
    assert_eq!(g.player.x, before_x);

    let effect = g.handle_key(Key::Char('q'));
    assert!(effect.quit);
    assert_eq!(effect.cue, Some(Cue::Lose));
}

#[test]
fn shoot_keys_fire_until_the_cap() {
    let mut g = Game::new(12, 8);
    let effect = g.handle_key(Key::Enter);
    assert!(!effect.quit);
    assert_eq!(effect.cue, Some(Cue::Pew));
    let effect = g.handle_key(Key::Char(' '));
    assert_eq!(effect.cue, Some(Cue::Pew));
    let effect = g.handle_key(Key::Enter);
    assert_eq!(effect.cue, None);
    assert_eq!(g.player.shots.len(), 2);
}

#[test]
fn move_keys_step_the_player_and_other_keys_do_nothing() {
    let mut g = Game::new(12, 8);
    let x0 = g.player.x;
    let effect = g.handle_key(Key::Left);
    assert_eq!(effect.cue, None);
    assert!(!effect.quit);
    assert_eq!(g.player.x, x0 - 1);
    g.handle_key(Key::Right);
    assert_eq!(g.player.x, x0);
    g.handle_key(Key::Char('z'));
    g.handle_key(Key::Other);
    assert_eq!(g.player.x, x0);
    assert!(g.player.shots.is_empty());
}

#[test]
fn destroying_the_last_invader_wins() {
    let mut g = tiny_game(9, 9, vec![Invader { x: 4, y: 3 }]);
    g.player.shots = vec![Shot { x: 4, y: 3 }];
    let report = g.advance(0);
    assert!(report.hit);
    assert!(!report.moved);
    assert_eq!(report.outcome, Outcome::Win);
    assert!(g.invaders.army.is_empty());
    assert!(g.player.shots.is_empty());
}

#[test]
fn a_descending_invader_on_the_threshold_loses() {
    let mut g = tiny_game(5, 4, vec![Invader { x: 4, y: 2 }]);
    g.invaders.move_timer = 1;
    let report = g.advance(1);
    assert!(report.moved);
    assert!(!report.hit);
    assert_eq!(report.outcome, Outcome::Lose);
    assert_eq!(g.invaders.direction, -1);
    assert_eq!(g.invaders.army, vec![Invader { x: 4, y: 3 }]);
}

#[test]
fn a_quiet_tick_continues() {
    let mut g = tiny_game(9, 9, vec![Invader { x: 2, y: 1 }]);
    let report = g.advance(10);
    assert!(!report.moved);
    assert!(!report.hit);
    assert_eq!(report.outcome, Outcome::Continue);
    assert_eq!(g.invaders.army, vec![Invader { x: 2, y: 1 }]);
}

#[test]
fn the_tick_frame_shows_every_entity() {
    let mut g = tiny_game(9, 9, vec![Invader { x: 2, y: 1 }]);
    g.player.shots = vec![Shot { x: 6, y: 5 }];
    g.player.shot_timer = 0;
    let report = g.advance(0);
    assert_eq!(report.frame.width, 9);
    assert_eq!(report.frame.height, 9);
    assert_eq!(report.frame.get(2, 1), '+');
    assert_eq!(report.frame.get(6, 5), '|');
    assert_eq!(report.frame.get(4, 8), 'A');
    assert_eq!(report.frame.get(0, 0), BLANK);
}

#[test]
fn a_movement_step_shifts_the_whole_swarm() {
    let mut g = tiny_game(
        9,
        9,
        vec![Invader { x: 2, y: 1 }, Invader { x: 4, y: 1 }],
    );
    g.invaders.move_timer = 5;
    let report = g.advance(7);
    assert!(report.moved);
    assert_eq!(report.outcome, Outcome::Continue);
    assert_eq!(
        g.invaders.army,
        vec![Invader { x: 3, y: 1 }, Invader { x: 5, y: 1 }]
    );
    assert_eq!(report.frame.get(3, 1), '+');
    assert_eq!(report.frame.get(5, 1), '+');
    assert_eq!(report.frame.get(2, 1), BLANK);
}
