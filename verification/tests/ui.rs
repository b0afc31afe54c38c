//! The interface state machine: screens, key handling, and shown texts.

use sugoroku::error::GameSystemError;
use sugoroku::player_status::player_table_from_names;
use sugoroku::preferences::Preferences;
use sugoroku::ui::{GameData, GameKey, TextSet, UiStatus};
use sugoroku::world::{world_from_records, AreaRecord, World};

fn names(list: &[&str]) -> Vec<String> {
    list.iter().map(|s| String::from(*s)).collect()
}

fn small_world(middle_effects: &[&str], dice_max: usize) -> World {
    world_from_records(
        String::from("test board"),
        String::from("welcome"),
        String::from("start"),
        String::from("goal"),
        dice_max,
        &vec![AreaRecord {
            description: String::from("middle"),
            effects: if middle_effects.is_empty() {
                None
            } else {
                Some(middle_effects.iter().map(|s| String::from(*s)).collect())
            },
        }],
    )
    .unwrap()
}

fn fresh_game(middle_effects: &[&str]) -> GameData {
    let world = small_world(middle_effects, 6);
    let order = names(&["A", "B"]);
    let table = player_table_from_names(&order).unwrap();
    let mut game = GameData::try_new(world, order, table).unwrap();
    let prefs: Preferences = Default::default();
    game.init(&prefs).unwrap();
    game
}

#[test]
fn empty_roster_is_rejected() {
    let world = small_world(&[], 6);
    let order: Vec<String> = Vec::new();
    let table = player_table_from_names(&order).unwrap();
    let err = GameData::try_new(world, order, table).unwrap_err();
    assert_eq!(err, GameSystemError::NoPlayer);
}

#[test]
fn game_starts_on_the_title_screen() {
    let game = fresh_game(&[]);
    assert_eq!(game.current_player, "A");
    assert_eq!(game.ui_status, UiStatus::TitleMenu);
    assert_eq!(game.text_set.main_window, {
        let prefs: Preferences = Default::default();
        game.world.start_description(&prefs)
    });
}

#[test]
fn enter_leaves_the_title_screen() {
    let prefs: Preferences = Default::default();
    let mut game = fresh_game(&[]);
    let quit = game.transition(&prefs, GameKey::Char('\n')).unwrap();
    assert!(!quit);
    assert_eq!(game.ui_status, UiStatus::DiceRoll);
}

#[test]
fn escape_and_capital_y_quit() {
    let prefs: Preferences = Default::default();
    let mut game = fresh_game(&[]);
    assert!(!game.transition(&prefs, GameKey::Esc).unwrap());
    assert_eq!(game.ui_status, UiStatus::QuitMenu);
    // Any other key returns to the interrupted screen ...
    assert!(!game.transition(&prefs, GameKey::Char('x')).unwrap());
    assert_eq!(game.ui_status, UiStatus::TitleMenu);
    // ... and Y on the quit menu ends the session.
    game.transition(&prefs, GameKey::Esc).unwrap();
    assert!(game.transition(&prefs, GameKey::Char('Y')).unwrap());
}

#[test]
fn digits_collect_without_leading_zero() {
    let prefs: Preferences = Default::default();
    let mut game = fresh_game(&[]);
    game.transition(&prefs, GameKey::Char('\n')).unwrap();
    game.transition(&prefs, GameKey::Char('0')).unwrap();
    assert_eq!(game.text_set.dice_string, "");
    game.transition(&prefs, GameKey::Char('1')).unwrap();
    game.transition(&prefs, GameKey::Char('0')).unwrap();
    assert_eq!(game.text_set.dice_string, "10");
    game.transition(&prefs, GameKey::Backspace).unwrap();
    assert_eq!(game.text_set.dice_string, "1");
    assert!(game.text_set.message.ends_with(">> 1"));
}

#[test]
fn a_full_turn_via_keys() {
    let prefs: Preferences = Default::default();
    let mut game = fresh_game(&[]);
    game.transition(&prefs, GameKey::Char('\n')).unwrap();
    game.transition(&prefs, GameKey::Char('2')).unwrap();
    game.transition(&prefs, GameKey::Char('\n')).unwrap();
    // A moved to the goal; the goal description is shown and B is next.
    assert_eq!(game.ui_status, UiStatus::DiceResult);
    assert_eq!(game.current_player, "B");
    assert_eq!(game.player_status_table.get("A").unwrap().order_of_arrival, Some(1));
    assert_eq!(game.text_set.main_window, game.world.area_list()[2].area_description(&prefs));
}

#[test]
fn out_of_range_roll_is_reported_and_recoverable() {
    let prefs: Preferences = Default::default();
    let mut game = fresh_game(&[]);
    game.transition(&prefs, GameKey::Char('\n')).unwrap();
    game.transition(&prefs, GameKey::Char('9')).unwrap();
    game.transition(&prefs, GameKey::Char('\n')).unwrap();
    assert_eq!(game.ui_status, UiStatus::DiceResult);
    assert_eq!(game.current_player, "A");
    assert_eq!(game.text_set.main_window, "サイコロの目が範囲外です: 9");
    assert_eq!(game.player_status_table.get("A").unwrap().position, 0);
}

#[test]
fn landing_on_a_skip_square_burdens_the_player() {
    let prefs: Preferences = Default::default();
    let mut game = fresh_game(&["SkipSelf: times=1"]);
    game.transition(&prefs, GameKey::Char('\n')).unwrap();
    game.transition(&prefs, GameKey::Char('1')).unwrap();
    game.transition(&prefs, GameKey::Char('\n')).unwrap();
    assert_eq!(game.current_player, "B");
    assert_eq!(game.player_status_table.get("A").unwrap().num_skip, 1);
}

#[test]
fn skip_screen_serves_one_pending_skip() {
    let prefs: Preferences = Default::default();
    let mut game = fresh_game(&[]);
    // Put B on the result screen with pending skips.
    let i = game.player_status_table.index_of("B").unwrap();
    let mut st = *game.player_status_table.get("B").unwrap();
    st.add_num_skip(2);
    game.player_status_table.set_status_at(i, st);
    game.current_player = String::from("B");
    game.ui_status = UiStatus::DiceResult;
    game.ui_status_buffer = UiStatus::DiceResult;
    game.transition(&prefs, GameKey::Char('\n')).unwrap();
    assert_eq!(game.ui_status, UiStatus::Skip);
    assert_eq!(game.text_set.main_window, "プレイヤーはお休みです。残り回数: 2");
    // Serving the skip consumes one and hands the turn to A.
    game.transition(&prefs, GameKey::Char('\n')).unwrap();
    assert_eq!(game.player_status_table.get("B").unwrap().num_skip, 1);
    assert_eq!(game.current_player, "A");
    assert_eq!(game.ui_status, UiStatus::DiceResult);
}

#[test]
fn game_over_screen_after_all_arrive() {
    let prefs: Preferences = Default::default();
    let world = small_world(&[], 6);
    let order = names(&["A"]);
    let table = player_table_from_names(&order).unwrap();
    let mut game = GameData::try_new(world, order, table).unwrap();
    game.init(&prefs).unwrap();
    game.transition(&prefs, GameKey::Char('\n')).unwrap();
    game.transition(&prefs, GameKey::Char('2')).unwrap();
    game.transition(&prefs, GameKey::Char('\n')).unwrap();
    assert_eq!(game.ui_status, UiStatus::GameFinished);
    game.transition(&prefs, GameKey::Char('\n')).unwrap();
    assert_eq!(game.text_set.message, "ゲームは終了しました。\nESCキーを押して終了してください。");
}

#[test]
fn text_set_prompts_exactly() {
    let prefs: Preferences = Default::default();
    let mut text_set: TextSet = Default::default();
    text_set.set_prompt_enter(&prefs);
    assert_eq!(text_set.message, "エンターキーを押してください。");
    text_set.set_skip_player(&prefs, 5);
    assert_eq!(text_set.main_window, "プレイヤーはお休みです。残り回数: 5");
    text_set.set_dice_is_out_of_range(&prefs, 12);
    assert_eq!(text_set.main_window, "サイコロの目が範囲外です: 12");
    text_set.set_guidance(&prefs);
    assert_eq!(
        text_set.guidance,
        "ESC: 終了メニュー\nCtrl-l: 画面再描画\nCtrl-t: タイトル画面に戻る"
    );
    text_set.set_prompt_dice_roll(&prefs, 6);
    assert_eq!(
        text_set.message,
        "サイコロを振って出た目を入力してください（最大値: 6）>> "
    );
}

#[test]
fn player_list_marks_turn_and_rank() {
    let prefs: Preferences = Default::default();
    let order = names(&["A", "B"]);
    let mut table = player_table_from_names(&order).unwrap();
    let i = table.index_of("B").unwrap();
    let mut st = *table.get("B").unwrap();
    st.set_order_of_arrival(1);
    table.set_status_at(i, st);
    let mut text_set: TextSet = Default::default();
    text_set.set_player_list(&prefs, "A", &order, &table).unwrap();
    assert_eq!(
        text_set.player_list,
        "🏁    Name（名前）\n   🎲 A\n 1    B\n"
    );
}

#[test]
fn player_list_reports_missing_name() {
    let prefs: Preferences = Default::default();
    let order = names(&["A", "X"]);
    let roster = names(&["A"]);
    let table = player_table_from_names(&roster).unwrap();
    let mut text_set: TextSet = Default::default();
    let err = text_set.set_player_list(&prefs, "A", &order, &table).unwrap_err();
    assert_eq!(err, GameSystemError::NotFoundPlayer(String::from("X")));
}

#[test]
fn overlong_dice_input_is_a_fatal_error() {
    let prefs: Preferences = Default::default();
    let mut game = fresh_game(&[]);
    game.transition(&prefs, GameKey::Char('\n')).unwrap();
    for _ in 0..25 {
        game.transition(&prefs, GameKey::Char('9')).unwrap();
    }
    let digits = game.text_set.dice_string.clone();
    let err = game.transition(&prefs, GameKey::Char('\n')).unwrap_err();
    assert_eq!(err, sugoroku::ui::UiError::InvalidDiceInput(digits));
}

#[test]
fn ctrl_t_returns_to_the_title_screen() {
    let prefs: Preferences = Default::default();
    let mut game = fresh_game(&[]);
    game.transition(&prefs, GameKey::Char('\n')).unwrap();
    assert_eq!(game.ui_status, UiStatus::DiceRoll);
    game.transition(&prefs, GameKey::Ctrl('t')).unwrap();
    assert_eq!(game.ui_status, UiStatus::TitleMenu);
    assert_eq!(game.ui_status_buffer, UiStatus::DiceRoll);
}
