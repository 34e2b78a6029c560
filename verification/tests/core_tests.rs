use invaders::frame::{new_frame, Drawable, Frame, BLANK, NUM_COLS, NUM_ROWS};
use invaders::invaders::{Invader, Invaders};
use invaders::player::{Player, Shot, MAX_SHOTS, SHOT_STEP_MS};
use invaders::render::diff;
use invaders::sounds::wav_stem;

fn small_player(width: usize, height: usize, x: usize) -> Player {
    Player {
        width,
        height,
        x,
        y: height - 1,
        shots: Vec::new(),
        shot_timer: 0,
    }
}

#[test]
fn frame_starts_blank() {
    let f = new_frame();
    assert_eq!(f.width, NUM_COLS);
    assert_eq!(f.height, NUM_ROWS);
    for x in 0..f.width {
        for y in 0..f.height {
            assert_eq!(f.get(x, y), BLANK);
        }
    }
}

#[test]
fn frame_set_changes_one_cell() {
    let mut f = Frame::new(4, 3);
    f.set(2, 1, '#');
    for x in 0..4 {
        for y in 0..3 {
            if (x, y) == (2, 1) {
                assert_eq!(f.get(x, y), '#');
            } else {
                assert_eq!(f.get(x, y), BLANK);
            }
        }
    }
}

#[test]
fn player_column_stays_in_bounds() {
    let mut p = Player::new(3, 5);
    assert_eq!(p.x, 1);
    for _ in 0..10 {
        p.move_right();
        assert!(p.x <= 2);
    }
    assert_eq!(p.x, 2);
    for _ in 0..10 {
        p.move_left();
        assert!(p.x <= 2);
    }
    assert_eq!(p.x, 0);
}

#[test]
fn move_left_at_left_bound_is_a_no_op() {
    let mut p = small_player(5, 4, 0);
    p.move_left();
    assert_eq!(p.x, 0);
}

#[test]
fn shoot_respects_the_cap() {
    let mut p = Player::new(9, 6);
    for k in 0..MAX_SHOTS {
        assert_eq!(p.shots.len(), k);
        assert!(p.shoot());
        assert_eq!(p.shots.len(), k + 1);
    }
    assert!(!p.shoot());
    assert_eq!(p.shots.len(), MAX_SHOTS);
}

#[test]
fn shoot_spawns_above_the_player() {
    let mut p = Player::new(9, 6);
    assert!(p.shoot());
    assert_eq!(p.shots[0], Shot { x: 4, y: 4 });
}

#[test]
fn projectiles_step_up_and_leave_at_the_top() {
    let mut p = small_player(5, 4, 2);
    p.shots = vec![Shot { x: 2, y: 1 }, Shot { x: 1, y: 0 }];
    p.update(SHOT_STEP_MS - 1);
    assert_eq!(p.shots, vec![Shot { x: 2, y: 1 }, Shot { x: 1, y: 0 }]);
    p.update(1);
    assert_eq!(p.shots, vec![Shot { x: 2, y: 0 }]);
    p.update(SHOT_STEP_MS);
    assert!(p.shots.is_empty());
}

#[test]
fn swarm_grid_is_empty_on_a_narrow_field() {
    let inv = Invaders::new(4, 20);
    assert!(inv.all_killed());
}

#[test]
fn swarm_grid_has_the_expected_population() {
    let inv = Invaders::new(40, 20);
    assert!(!inv.all_killed());
    assert_eq!(inv.army.len(), 72);
    for iv in &inv.army {
        assert!(iv.x > 1 && iv.x + 2 < 40);
        assert!(iv.y > 0 && 2 * iv.y < 20);
        assert!(iv.x % 2 == 0 && iv.y % 2 == 0);
    }
}

#[test]
fn swarm_shifts_then_flips_and_descends() {
    let mut inv = Invaders {
        width: 5,
        height: 5,
        army: vec![Invader { x: 3, y: 1 }],
        direction: 1,
        move_timer: 10,
    };
    assert!(!inv.update(9));
    assert_eq!(inv.move_timer, 1);
    assert_eq!(inv.army, vec![Invader { x: 3, y: 1 }]);

    assert!(inv.update(1));
    assert_eq!(inv.direction, 1);
    assert_eq!(inv.army, vec![Invader { x: 4, y: 1 }]);

    let timer = inv.move_timer;
    assert!(inv.update(timer));
    assert_eq!(inv.direction, -1);
    assert_eq!(inv.army, vec![Invader { x: 4, y: 2 }]);
}

#[test]
fn swarm_flips_at_the_left_bound() {
    let mut inv = Invaders {
        width: 5,
        height: 9,
        army: vec![Invader { x: 0, y: 2 }, Invader { x: 2, y: 2 }],
        direction: -1,
        move_timer: 1,
    };
    assert!(inv.update(1));
    assert_eq!(inv.direction, 1);
    assert_eq!(inv.army, vec![Invader { x: 0, y: 3 }, Invader { x: 2, y: 3 }]);
}

#[test]
fn swarm_tempo_scales_with_population() {
    let full = Invaders::new(40, 20);
    assert_eq!(full.move_timer, 250 + 25 * 72);
    let mut small = Invaders {
        width: 5,
        height: 5,
        army: vec![Invader { x: 1, y: 1 }],
        direction: 1,
        move_timer: 1,
    };
    assert!(small.update(1));
    assert_eq!(small.move_timer, 250 + 25);
}

#[test]
fn swarm_tempo_stops_scaling_beyond_the_cap() {
    let mut army = Vec::new();
    for _ in 0..10001 {
        army.push(Invader { x: 1, y: 1 });
    }
    let mut inv = Invaders {
        width: 5,
        height: 5,
        army,
        direction: 1,
        move_timer: 1,
    };
    assert!(inv.update(1));
    assert_eq!(inv.move_timer, 250 + 25 * 10000);
}

#[test]
fn narrowest_playfield_pins_the_player() {
    let mut p = Player::new(1, 2);
    assert_eq!(p.x, 0);
    p.move_right();
    assert_eq!(p.x, 0);
    p.move_left();
    assert_eq!(p.x, 0);
}

#[test]
fn single_invader_on_the_threshold_reaches_bottom() {
    let inv = Invaders {
        width: 10,
        height: 6,
        army: vec![Invader { x: 0, y: 5 }],
        direction: 1,
        move_timer: 100,
    };
    assert!(inv.reached_bottom());
}

#[test]
fn invader_above_the_threshold_does_not_reach_bottom() {
    let inv = Invaders {
        width: 10,
        height: 6,
        army: vec![Invader { x: 0, y: 4 }],
        direction: 1,
        move_timer: 100,
    };
    assert!(!inv.reached_bottom());
}

#[test]
fn detect_hit_removes_exactly_the_matching_pairs() {
    let mut p = small_player(10, 10, 5);
    p.shots = vec![Shot { x: 2, y: 3 }, Shot { x: 4, y: 4 }, Shot { x: 9, y: 9 }];
    let mut inv = Invaders {
        width: 10,
        height: 10,
        army: vec![
            Invader { x: 2, y: 3 },
            Invader { x: 7, y: 7 },
            Invader { x: 4, y: 4 },
        ],
        direction: 1,
        move_timer: 100,
    };
    assert!(p.detect_hit(&mut inv));
    assert_eq!(p.shots, vec![Shot { x: 9, y: 9 }]);
    assert_eq!(inv.army, vec![Invader { x: 7, y: 7 }]);
}

#[test]
fn detect_hit_without_overlap_changes_nothing() {
    let mut p = small_player(10, 10, 5);
    p.shots = vec![Shot { x: 2, y: 3 }];
    let mut inv = Invaders {
        width: 10,
        height: 10,
        army: vec![Invader { x: 2, y: 4 }, Invader { x: 3, y: 3 }],
        direction: 1,
        move_timer: 100,
    };
    assert!(!p.detect_hit(&mut inv));
    assert_eq!(p.shots, vec![Shot { x: 2, y: 3 }]);
    assert_eq!(
        inv.army,
        vec![Invader { x: 2, y: 4 }, Invader { x: 3, y: 3 }]
    );
}

#[test]
fn two_projectiles_hit_two_invaders_in_one_tick() {
    let mut p = small_player(8, 8, 3);
    p.shots = vec![Shot { x: 1, y: 2 }, Shot { x: 5, y: 3 }];
    let mut inv = Invaders {
        width: 8,
        height: 8,
        army: vec![Invader { x: 1, y: 2 }, Invader { x: 5, y: 3 }],
        direction: 1,
        move_timer: 100,
    };
    assert!(p.detect_hit(&mut inv));
    assert!(p.shots.is_empty());
    assert!(inv.army.is_empty());
}

#[test]
fn drawables_write_their_glyphs() {
    let mut f = Frame::new(6, 6);
    let mut p = small_player(6, 6, 2);
    p.shots = vec![Shot { x: 4, y: 1 }];
    let inv = Invaders {
        width: 6,
        height: 6,
        army: vec![Invader { x: 0, y: 0 }],
        direction: 1,
        move_timer: 100,
    };
    p.draw(&mut f);
    inv.draw(&mut f);
    assert_eq!(f.get(2, 5), 'A');
    assert_eq!(f.get(4, 1), '|');
    assert_eq!(f.get(0, 0), '+');
    assert_eq!(f.get(3, 3), BLANK);
}

#[test]
fn rendering_the_same_frame_again_writes_nothing() {
    let mut f = Frame::new(7, 5);
    f.set(1, 1, 'A');
    let writes = diff(&f, &f, false);
    assert!(writes.is_empty());
}

#[test]
fn forced_render_writes_every_cell() {
    let f = Frame::new(7, 5);
    let writes = diff(&f, &f, true);
    assert_eq!(writes.len(), 35);
}

#[test]
fn render_emits_exactly_the_changed_cells() {
    let prev = Frame::new(7, 5);
    let mut curr = Frame::new(7, 5);
    curr.set(3, 2, 'A');
    let writes = diff(&prev, &curr, false);
    assert_eq!(writes.len(), 1);
    assert_eq!((writes[0].x, writes[0].y, writes[0].glyph), (3, 2, 'A'));
}

#[test]
fn wav_names_register_under_their_stem() {
    assert_eq!(wav_stem("explode.wav"), Some("explode".to_string()));
    assert_eq!(wav_stem("a.b.wav"), Some("a.b".to_string()));
}

#[test]
fn other_files_do_not_register() {
    assert_eq!(wav_stem(".wav"), None);
    assert_eq!(wav_stem("pew.mp3"), None);
    assert_eq!(wav_stem("wav"), None);
    assert_eq!(wav_stem("move.wav.txt"), None);
}
