use invaders::fleet::{
    alien_art_row, alien_pixel_lit, reset_aliens, AlienSlot, ALIEN_ART_COLS, ALIEN_ART_ROWS, ALIEN_COUNT,
};
use invaders::game::{Action, Click, FrameInput, Game, GameState};
use invaders::hits::{first_alive, pick_alive, resolve_hits, shooter_for_draws, shot_fired};
use invaders::menu::{tab_at, tab_index, tab_next, tab_prev, MenuTab};
use invaders::settings::{
    color_option, difficulty_at, key_name, rebind_candidate, Difficulty, Key, Settings, REBIND_KEY_COUNT,
};

fn keys(ks: &[Key]) -> FrameInput {
    FrameInput { pressed: ks.to_vec(), click: None }
}

fn click(c: Click) -> FrameInput {
    FrameInput { pressed: Vec::new(), click: Some(c) }
}

fn playing_game() -> Game {
    let mut g = Game::new();
    assert_eq!(g.step(&keys(&[Key::Enter])), Action::StartRound);
    assert_eq!(g.state(), GameState::Playing);
    g
}

fn no_hits() -> Vec<Vec<usize>> {
    Vec::new()
}

#[test]
fn tabs_cycle_in_order() {
    assert_eq!(tab_next(MenuTab::Main), MenuTab::Controls);
    assert_eq!(tab_next(MenuTab::Controls), MenuTab::Colors);
    assert_eq!(tab_next(MenuTab::Colors), MenuTab::Difficulty);
    assert_eq!(tab_next(MenuTab::Difficulty), MenuTab::Main);
    assert_eq!(tab_prev(MenuTab::Main), MenuTab::Difficulty);
    assert_eq!(tab_prev(MenuTab::Difficulty), MenuTab::Colors);
    assert_eq!(tab_index(MenuTab::Main), 0);
    assert_eq!(tab_index(MenuTab::Difficulty), 3);
    for i in 0..4 {
        assert_eq!(tab_index(tab_at(i)), i);
    }
}

#[test]
fn tab_next_and_prev_undo_each_other() {
    for i in 0..4 {
        let t = tab_at(i);
        assert_eq!(tab_prev(tab_next(t)), t);
        assert_eq!(tab_next(tab_prev(t)), t);
        assert_eq!(tab_next(tab_next(tab_next(tab_next(t)))), t);
    }
}

#[test]
fn key_names() {
    assert_eq!(key_name(Key::Left), "Left");
    assert_eq!(key_name(Key::Right), "Right");
    assert_eq!(key_name(Key::LeftControl), "LCtrl");
    assert_eq!(key_name(Key::RightControl), "RCtrl");
    assert_eq!(key_name(Key::Space), "Space");
    assert_eq!(key_name(Key::Z), "Z");
    assert_eq!(key_name(Key::D), "D");
    assert_eq!(key_name(Key::Up), "???");
    assert_eq!(key_name(Key::Enter), "???");
}

#[test]
fn rebind_candidates_exclude_menu_keys() {
    for i in 0..REBIND_KEY_COUNT {
        let k = rebind_candidate(i);
        assert!(k != Key::Enter && k != Key::Escape);
    }
    assert_eq!(rebind_candidate(0), Key::Left);
    assert_eq!(rebind_candidate(10), Key::RightControl);
}

#[test]
fn difficulty_levels() {
    assert_eq!(difficulty_at(0), Difficulty::Easy);
    assert_eq!(difficulty_at(1), Difficulty::Normal);
    assert_eq!(difficulty_at(2), Difficulty::Hard);
    assert_eq!(Difficulty::Easy.alien_speed(), 60);
    assert_eq!(Difficulty::Normal.alien_speed(), 100);
    assert_eq!(Difficulty::Hard.alien_speed(), 160);
    assert_eq!(Difficulty::Easy.shoot_chance(), 1);
    assert_eq!(Difficulty::Normal.shoot_chance(), 2);
    assert_eq!(Difficulty::Hard.shoot_chance(), 4);
    assert_eq!(Difficulty::Easy.label(), "Easy");
    assert_eq!(Difficulty::Normal.label(), "Normal");
    assert_eq!(Difficulty::Hard.label(), "Hard");
}

#[test]
fn harder_levels_are_faster_and_fire_more() {
    for i in 0..3 {
        for j in (i + 1)..3 {
            assert!(difficulty_at(i).alien_speed() < difficulty_at(j).alien_speed());
            assert!(difficulty_at(i).shoot_chance() < difficulty_at(j).shoot_chance());
        }
    }
}

#[test]
fn color_options() {
    let white = color_option(0);
    assert_eq!((white.r, white.g, white.b, white.label), (255, 255, 255, "White"));
    let red = color_option(1);
    assert_eq!((red.r, red.g, red.b, red.label), (255, 50, 50, "Red"));
    let cyan = color_option(3);
    assert_eq!((cyan.r, cyan.g, cyan.b, cyan.label), (50, 200, 255, "Cyan"));
    let purple = color_option(5);
    assert_eq!((purple.r, purple.g, purple.b, purple.label), (200, 50, 255, "Purple"));
}

#[test]
fn default_settings() {
    let s = Settings::default();
    assert_eq!(s.key_left, Key::Left);
    assert_eq!(s.key_right, Key::Right);
    assert_eq!(s.key_fire, Key::LeftControl);
    assert_eq!(s.player_color_idx, 1);
    assert_eq!(s.alien_color_idx, 0);
    assert_eq!(s.bullet_player_color_idx, 1);
    assert_eq!(s.bullet_alien_color_idx, 0);
    assert_eq!(s.difficulty, Difficulty::Normal);
}

#[test]
fn settings_rows_and_slots() {
    let mut s = Settings::default();
    s.set_row_color(0, 4);
    s.set_row_color(1, 5);
    s.set_row_color(2, 3);
    s.set_row_color(3, 2);
    assert_eq!(
        (s.player_color_idx, s.alien_color_idx, s.bullet_player_color_idx, s.bullet_alien_color_idx),
        (4, 5, 3, 2)
    );
    s.bind(0, Key::A);
    s.bind(1, Key::D);
    s.bind(2, Key::Space);
    assert_eq!((s.key_left, s.key_right, s.key_fire), (Key::A, Key::D, Key::Space));
}

#[test]
fn fresh_fleet_layout() {
    let mut slots: Vec<AlienSlot> = vec![AlienSlot { x: 1, y: 2, width: 3, height: 4 }];
    reset_aliens(&mut slots);
    assert_eq!(slots.len(), ALIEN_COUNT);
    assert_eq!(slots[0], AlienSlot { x: 60, y: 60, width: 44, height: 32 });
    assert_eq!(slots[10], AlienSlot { x: 660, y: 60, width: 44, height: 32 });
    assert_eq!(slots[11], AlienSlot { x: 60, y: 105, width: 44, height: 32 });
    assert_eq!(slots[54], AlienSlot { x: 660, y: 240, width: 44, height: 32 });
}

#[test]
fn fresh_fleet_does_not_overlap_and_fits_the_screen() {
    let mut slots: Vec<AlienSlot> = Vec::new();
    reset_aliens(&mut slots);
    for (i, a) in slots.iter().enumerate() {
        assert!(a.x + a.width <= 800 && a.y + a.height <= 600);
        for (j, b) in slots.iter().enumerate() {
            if i != j {
                assert!(a.x + a.width <= b.x || b.x + b.width <= a.x || a.y + a.height <= b.y || b.y + b.height <= a.y);
            }
        }
    }
}

#[test]
fn alien_sprite() {
    assert_eq!(alien_art_row(0), "00100000100");
    assert_eq!(alien_art_row(7), "00011011000");
    assert!(alien_pixel_lit(0, 2));
    assert!(!alien_pixel_lit(0, 0));
    assert!(alien_pixel_lit(4, 0) && alien_pixel_lit(4, 10));
    let mut lit = 0;
    for r in 0..ALIEN_ART_ROWS {
        for c in 0..ALIEN_ART_COLS {
            if alien_pixel_lit(r, c) {
                lit += 1;
            }
        }
    }
    assert_eq!(lit, 46);
}

#[test]
fn new_game_starts_in_main_menu() {
    let g = Game::new();
    assert_eq!(g.state(), GameState::Menu(MenuTab::Main));
    assert_eq!(g.score(), 0);
    assert_eq!(g.fleet_len(), 0);
    let c = g.cursor();
    assert_eq!((c.color_row, c.color_col, c.diff_cursor, c.color_tab_mode), (0, 0, 1, false));
}

#[test]
fn frame_input_pressed() {
    let input = keys(&[Key::Up, Key::Z]);
    assert!(input.is_pressed(Key::Z));
    assert!(input.is_pressed(Key::Up));
    assert!(!input.is_pressed(Key::Enter));
}

#[test]
fn enter_on_main_starts_a_round() {
    let g = playing_game();
    assert_eq!(g.score(), 0);
    assert_eq!(g.fleet_len(), ALIEN_COUNT);
    assert_eq!(g.alive_count(), ALIEN_COUNT);
}

#[test]
fn arrow_keys_switch_tabs() {
    let mut g = Game::new();
    assert_eq!(g.step(&keys(&[Key::Right])), Action::SwitchTab);
    assert_eq!(g.state(), GameState::Menu(MenuTab::Controls));
    assert_eq!(g.step(&keys(&[Key::Left])), Action::SwitchTab);
    assert_eq!(g.state(), GameState::Menu(MenuTab::Main));
    assert_eq!(g.step(&keys(&[Key::Left])), Action::SwitchTab);
    assert_eq!(g.state(), GameState::Menu(MenuTab::Difficulty));
}

#[test]
fn right_wins_over_enter_on_main() {
    let mut g = Game::new();
    assert_eq!(g.step(&keys(&[Key::Enter, Key::Right])), Action::SwitchTab);
    assert_eq!(g.state(), GameState::Menu(MenuTab::Controls));
    assert_eq!(g.fleet_len(), 0);
}

#[test]
fn clicking_a_tab_switches_to_it() {
    let mut g = Game::new();
    assert_eq!(g.step(&click(Click::Tab(MenuTab::Colors))), Action::SwitchTab);
    assert_eq!(g.state(), GameState::Menu(MenuTab::Colors));
}

#[test]
fn rebinding_binds_the_first_candidate() {
    let mut g = Game::new();
    g.step(&keys(&[Key::Right]));
    g.step(&click(Click::Binding(1)));
    assert_eq!(g.state(), GameState::Rebinding(1));
    g.step(&keys(&[Key::X, Key::Z]));
    assert_eq!(g.state(), GameState::Menu(MenuTab::Controls));
    assert_eq!(g.settings().key_right, Key::Z);
    g.step(&click(Click::Binding(2)));
    g.step(&keys(&[Key::Space]));
    assert_eq!(g.settings().key_fire, Key::Space);
}

#[test]
fn rebinding_waits_for_a_candidate_and_escape_cancels() {
    let mut g = Game::new();
    g.step(&keys(&[Key::Right]));
    g.step(&click(Click::Binding(0)));
    g.step(&keys(&[Key::Enter]));
    assert_eq!(g.state(), GameState::Rebinding(0));
    g.step(&keys(&[]));
    assert_eq!(g.state(), GameState::Rebinding(0));
    g.step(&keys(&[Key::Escape]));
    assert_eq!(g.state(), GameState::Menu(MenuTab::Controls));
    assert_eq!(g.settings().key_left, Key::Left);
}

#[test]
fn out_of_range_binding_click_is_ignored() {
    let mut g = Game::new();
    g.step(&keys(&[Key::Right]));
    g.step(&click(Click::Binding(3)));
    assert_eq!(g.state(), GameState::Menu(MenuTab::Controls));
}

#[test]
fn colors_tab_navigation() {
    let mut g = Game::new();
    g.step(&click(Click::Tab(MenuTab::Colors)));
    g.step(&keys(&[Key::Down]));
    g.step(&keys(&[Key::Right]));
    assert_eq!(g.state(), GameState::Menu(MenuTab::Colors));
    let c = g.cursor();
    assert_eq!((c.color_row, c.color_col), (1, 1));
    g.step(&keys(&[Key::Enter]));
    assert_eq!(g.settings().alien_color_idx, 1);
    for _ in 0..10 {
        g.step(&keys(&[Key::Right, Key::Down]));
    }
    let c = g.cursor();
    assert_eq!((c.color_row, c.color_col), (3, 5));
    g.step(&keys(&[Key::Enter]));
    assert_eq!(g.settings().bullet_alien_color_idx, 5);
}

#[test]
fn colors_tab_hands_arrows_to_the_tab_bar() {
    let mut g = Game::new();
    g.step(&click(Click::Tab(MenuTab::Colors)));
    g.step(&keys(&[Key::Up]));
    assert!(g.cursor().color_tab_mode);
    assert_eq!(g.step(&keys(&[Key::Right])), Action::SwitchTab);
    assert_eq!(g.state(), GameState::Menu(MenuTab::Difficulty));
    assert!(!g.cursor().color_tab_mode);
    g.step(&keys(&[Key::Left]));
    g.step(&keys(&[Key::Up]));
    g.step(&keys(&[Key::Down]));
    assert!(!g.cursor().color_tab_mode);
    assert_eq!(g.cursor().color_row, 0);
    assert_eq!(g.state(), GameState::Menu(MenuTab::Colors));
}

#[test]
fn colors_tab_click_applies_the_color() {
    let mut g = Game::new();
    g.step(&click(Click::Tab(MenuTab::Colors)));
    g.step(&keys(&[Key::Up]));
    g.step(&click(Click::ColorCell(3, 4)));
    let c = g.cursor();
    assert_eq!((c.color_row, c.color_col, c.color_tab_mode), (3, 4, false));
    assert_eq!(g.settings().bullet_alien_color_idx, 4);
    g.step(&click(Click::ColorCell(0, 6)));
    assert_eq!(g.settings().player_color_idx, 1);
}

#[test]
fn difficulty_tab() {
    let mut g = Game::new();
    g.step(&keys(&[Key::Left]));
    assert_eq!(g.state(), GameState::Menu(MenuTab::Difficulty));
    g.step(&keys(&[Key::Up]));
    assert_eq!(g.cursor().diff_cursor, 0);
    assert_eq!(g.settings().difficulty, Difficulty::Normal);
    g.step(&keys(&[Key::Enter]));
    assert_eq!(g.settings().difficulty, Difficulty::Easy);
    g.step(&keys(&[Key::Up]));
    assert_eq!(g.cursor().diff_cursor, 0);
    g.step(&keys(&[Key::Down]));
    g.step(&keys(&[Key::Down]));
    g.step(&keys(&[Key::Down]));
    assert_eq!(g.cursor().diff_cursor, 2);
    g.step(&keys(&[Key::Enter]));
    assert_eq!(g.settings().difficulty, Difficulty::Hard);
    g.step(&click(Click::DifficultyRow(1)));
    assert_eq!(g.cursor().diff_cursor, 1);
    assert_eq!(g.settings().difficulty, Difficulty::Normal);
}

#[test]
fn bullets_destroy_the_first_alien_alive() {
    let mut g = playing_game();
    let overlaps = vec![vec![0, 1], vec![0], vec![5], vec![]];
    let kills = g.play_frame(false, &overlaps, false, &keys(&[]));
    assert_eq!(kills, vec![Some(0), None, Some(5), None]);
    assert_eq!(g.score(), 20);
    assert_eq!(g.alive_count(), ALIEN_COUNT - 2);
    assert!(!g.is_alive(0) && g.is_alive(1) && !g.is_alive(5));
    assert_eq!(g.state(), GameState::Playing);
    let kills = g.play_frame(false, &vec![vec![0, 1]], false, &keys(&[]));
    assert_eq!(kills, vec![Some(1)]);
    assert_eq!(g.score(), 30);
}

#[test]
fn score_is_ten_points_per_alien_destroyed() {
    let mut g = playing_game();
    let overlaps: Vec<Vec<usize>> = (0..20).map(|i| vec![i]).collect();
    g.play_frame(false, &overlaps, false, &keys(&[]));
    assert_eq!(g.score() as usize, 10 * (ALIEN_COUNT - g.alive_count()));
    assert_eq!(g.score(), 200);
}

#[test]
fn destroying_the_fleet_wins_the_round() {
    let mut g = playing_game();
    let overlaps: Vec<Vec<usize>> = (0..ALIEN_COUNT).map(|i| vec![i]).collect();
    g.play_frame(true, &overlaps, true, &keys(&[]));
    assert_eq!(g.state(), GameState::GameOver(true));
    assert_eq!(g.score(), 550);
    assert_eq!(g.alive_count(), 0);
}

#[test]
fn being_hit_or_reached_loses_the_round() {
    let mut g = playing_game();
    g.play_frame(false, &no_hits(), true, &keys(&[]));
    assert_eq!(g.state(), GameState::GameOver(false));
    let mut g = playing_game();
    g.play_frame(true, &no_hits(), false, &keys(&[]));
    assert_eq!(g.state(), GameState::GameOver(false));
}

#[test]
fn escape_during_play_goes_to_the_menu() {
    let mut g = playing_game();
    g.play_frame(false, &vec![vec![3]], true, &keys(&[Key::Escape]));
    assert_eq!(g.state(), GameState::Menu(MenuTab::Main));
    assert_eq!(g.score(), 10);
    assert_eq!(g.fleet_len(), ALIEN_COUNT);
}

#[test]
fn play_frame_away_from_the_playfield_changes_nothing() {
    let mut g = Game::new();
    let kills = g.play_frame(true, &vec![vec![0]], true, &keys(&[Key::Escape]));
    assert!(kills.is_empty());
    assert_eq!(g.state(), GameState::Menu(MenuTab::Main));
}

#[test]
fn step_during_play_changes_nothing() {
    let mut g = playing_game();
    assert_eq!(g.step(&keys(&[Key::Escape, Key::Enter])), Action::Stay);
    assert_eq!(g.state(), GameState::Playing);
}

#[test]
fn game_over_screen() {
    let mut g = playing_game();
    g.play_frame(false, &vec![vec![7]], true, &keys(&[]));
    assert_eq!(g.state(), GameState::GameOver(false));
    assert_eq!(g.score(), 10);
    assert_eq!(g.step(&keys(&[])), Action::Stay);
    assert_eq!(g.step(&keys(&[Key::Enter])), Action::StartRound);
    assert_eq!(g.state(), GameState::Playing);
    assert_eq!(g.score(), 0);
    assert_eq!(g.alive_count(), ALIEN_COUNT);
    g.play_frame(false, &vec![vec![7]], true, &keys(&[]));
    assert_eq!(g.step(&keys(&[Key::Escape])), Action::Stay);
    assert_eq!(g.state(), GameState::Menu(MenuTab::Main));
    assert_eq!(g.score(), 10);
}

#[test]
fn game_over_with_enter_and_escape_resets_and_shows_the_menu() {
    let mut g = playing_game();
    g.play_frame(false, &vec![vec![7]], true, &keys(&[]));
    assert_eq!(g.step(&keys(&[Key::Enter, Key::Escape])), Action::StartRound);
    assert_eq!(g.state(), GameState::Menu(MenuTab::Main));
    assert_eq!(g.score(), 0);
    assert_eq!(g.alive_count(), ALIEN_COUNT);
}

#[test]
fn first_alive_and_resolve_hits() {
    let alive = vec![false, true, true];
    assert_eq!(first_alive(&alive, &vec![0, 2, 1]), Some(2));
    assert_eq!(first_alive(&alive, &vec![0, 9]), None);
    let mut alive = vec![true, true, false];
    let kills = resolve_hits(&mut alive, &vec![vec![2, 1], vec![1, 0], vec![1]]);
    assert_eq!(kills, vec![Some(1), Some(0), None]);
    assert_eq!(alive, vec![false, false, false]);
}

#[test]
fn shooting_roll_and_pick() {
    assert!(shot_fired(2, 101));
    assert!(!shot_fired(2, 102));
    assert!(!shot_fired(0, 0));
    assert!(shot_fired(4, 403));
    let alive = vec![false, true, false, true];
    assert_eq!(pick_alive(&alive, 3), Some(3));
    assert_eq!(pick_alive(&alive, 4), Some(1));
    assert_eq!(pick_alive(&vec![false, false], 7), None);
    assert_eq!(pick_alive(&vec![], 7), None);
}

#[test]
fn chosen_shooter_is_alive() {
    let mut g = playing_game();
    let overlaps: Vec<Vec<usize>> = (0..50).map(|i| vec![i]).collect();
    g.play_frame(false, &overlaps, false, &keys(&[]));
    for _ in 0..2000 {
        if let Some(i) = g.choose_shooter() {
            assert!(i >= 50 && g.is_alive(i));
        }
    }
    let g = Game::new();
    for _ in 0..200 {
        assert_eq!(g.choose_shooter(), None);
    }
}

#[test]
fn shooter_for_given_draws() {
    let alive = vec![false, true, false, true];
    assert_eq!(shooter_for_draws(2, &alive, 101, 3), Some(3));
    assert_eq!(shooter_for_draws(2, &alive, 101, 4), Some(1));
    assert_eq!(shooter_for_draws(2, &alive, 102, 3), None);
    assert_eq!(shooter_for_draws(4, &alive, 99, 0), None);
    assert_eq!(shooter_for_draws(4, &vec![false, false], 0, 0), None);
}
