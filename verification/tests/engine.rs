//! Turn resolution, goal bookkeeping, and the turn-order resolver.

use sugoroku::area::{Area, AreaEffect, GoToStart, NoEffect, PushOthersAll, PushSelf, SkipSelf};
use sugoroku::error::GameSystemError;
use sugoroku::player_status::{
    player_table_from_names, PlayerOrder, PlayerStatus, PlayerStatusTable,
};
use sugoroku::preferences::Preferences;
use sugoroku::world::{AreaRecord, World, world_from_records};

fn record(description: &str, effects: &[&str]) -> AreaRecord {
    AreaRecord {
        description: String::from(description),
        effects: if effects.is_empty() {
            None
        } else {
            Some(effects.iter().map(|s| String::from(*s)).collect())
        },
    }
}

fn names(list: &[&str]) -> Vec<String> {
    list.iter().map(|s| String::from(*s)).collect()
}

fn small_world(middle_effects: &[&str], dice_max: usize) -> World {
    world_from_records(
        String::from("test board"),
        String::from("welcome"),
        String::from("start"),
        String::from("goal"),
        dice_max,
        &vec![record("middle", middle_effects)],
    )
    .unwrap()
}

#[test]
fn push_self_cascades_into_goal() {
    // Start, one PushSelf square, goal; A rolls 1, lands on the PushSelf
    // square, is carried past the goal, clamps there and takes rank 1.
    let prefs: Preferences = Default::default();
    let mut world = small_world(&["PushSelf: num=2"], 6);
    let order = names(&["A", "B"]);
    let mut table = player_table_from_names(&order).unwrap();
    let description = world
        .dice_roll(&prefs, 1, "A", &order, &mut table)
        .unwrap();
    assert_eq!(description, world.area_list()[2].area_description(&prefs));
    let a = table.get("A").unwrap();
    assert_eq!(a.position, 2);
    assert_eq!(a.order_of_arrival, Some(1));
    let b = table.get("B").unwrap();
    assert_eq!(b.position, 0);
    assert_eq!(b.order_of_arrival, None);
    assert_eq!(order.next_player("A", &mut table).unwrap(), Some(String::from("B")));
}

#[test]
fn roll_beyond_dice_max_changes_nothing() {
    // A single player rolls above the die bound: the exact value comes back
    // in the error and no status moves.
    let prefs: Preferences = Default::default();
    let mut world = small_world(&[], 6);
    let order = names(&["A"]);
    let mut table = player_table_from_names(&order).unwrap();
    let err = world.dice_roll(&prefs, 7, "A", &order, &mut table).unwrap_err();
    assert_eq!(err, GameSystemError::OutOfRangeDice(7));
    let a = table.get("A").unwrap();
    assert_eq!(a.position, 0);
    assert_eq!(a.num_skip, 0);
    assert_eq!(a.order_of_arrival, None);
}

#[test]
fn roll_of_zero_changes_nothing() {
    let prefs: Preferences = Default::default();
    let mut world = small_world(&[], 6);
    let order = names(&["A", "B"]);
    let mut table = player_table_from_names(&order).unwrap();
    let err = world.dice_roll(&prefs, 0, "A", &order, &mut table).unwrap_err();
    assert_eq!(err, GameSystemError::OutOfRangeDice(0));
    for name in ["A", "B"] {
        let st = table.get(name).unwrap();
        assert_eq!(st.position, 0);
        assert_eq!(st.num_skip, 0);
        assert_eq!(st.order_of_arrival, None);
    }
}

#[test]
fn unknown_roller_is_reported() {
    let prefs: Preferences = Default::default();
    let mut world = small_world(&[], 6);
    let order = names(&["A"]);
    let mut table = player_table_from_names(&order).unwrap();
    let err = world.dice_roll(&prefs, 1, "X", &order, &mut table).unwrap_err();
    assert_eq!(err, GameSystemError::NotFoundPlayer(String::from("X")));
}

#[test]
fn arrived_roller_runs_off_the_board() {
    // A player who already arrived sits on the last square; a further roll
    // pushes them past the end, which is the defensive position error.
    let prefs: Preferences = Default::default();
    let mut world = small_world(&[], 6);
    let order = names(&["A"]);
    let mut table = player_table_from_names(&order).unwrap();
    world.dice_roll(&prefs, 2, "A", &order, &mut table).unwrap();
    assert_eq!(table.get("A").unwrap().order_of_arrival, Some(1));
    let err = world.dice_roll(&prefs, 1, "A", &order, &mut table).unwrap_err();
    assert_eq!(err, GameSystemError::OutOfRangePosition(String::from("A"), 3));
}

#[test]
fn simultaneous_arrivals_rank_in_roster_order() {
    // A lands on a PushOthersAll square; B and C sail past the goal in the
    // same pass and take consecutive ranks in roster order.
    let prefs: Preferences = Default::default();
    let mut world = small_world(&["PushOthersAll: num=5"], 6);
    let order = names(&["A", "B", "C"]);
    let mut table = player_table_from_names(&order).unwrap();
    world.dice_roll(&prefs, 1, "A", &order, &mut table).unwrap();
    let a = table.get("A").unwrap();
    assert_eq!(a.position, 1);
    assert_eq!(a.order_of_arrival, None);
    let b = table.get("B").unwrap();
    assert_eq!(b.position, 2);
    assert_eq!(b.order_of_arrival, Some(1));
    let c = table.get("C").unwrap();
    assert_eq!(c.position, 2);
    assert_eq!(c.order_of_arrival, Some(2));
    // A arrives afterwards and takes the next free rank: 1..=3 with no gap.
    world.dice_roll(&prefs, 6, "A", &order, &mut table).unwrap();
    assert_eq!(table.get("A").unwrap().order_of_arrival, Some(3));
}

#[test]
fn next_player_consumes_one_skip() {
    let order = names(&["A", "B", "C"]);
    let mut table = player_table_from_names(&order).unwrap();
    let mut b = *table.get("B").unwrap();
    b.add_num_skip(2);
    let i = table.index_of("B").unwrap();
    table.set_status_at(i, b);
    assert_eq!(order.next_player("A", &mut table).unwrap(), Some(String::from("C")));
    assert_eq!(table.get("B").unwrap().num_skip, 1);
    assert_eq!(order.next_player("A", &mut table).unwrap(), Some(String::from("C")));
    assert_eq!(table.get("B").unwrap().num_skip, 0);
    assert_eq!(order.next_player("A", &mut table).unwrap(), Some(String::from("B")));
}

#[test]
fn next_player_skips_arrived_players() {
    let order = names(&["A", "B", "C"]);
    let mut table = player_table_from_names(&order).unwrap();
    let mut b = *table.get("B").unwrap();
    b.set_order_of_arrival(1);
    let i = table.index_of("B").unwrap();
    table.set_status_at(i, b);
    assert_eq!(order.next_player("A", &mut table).unwrap(), Some(String::from("C")));
    assert_eq!(order.next_player("C", &mut table).unwrap(), Some(String::from("A")));
}

#[test]
fn next_player_reports_game_over() {
    let order = names(&["A", "B"]);
    let mut table = player_table_from_names(&order).unwrap();
    for name in ["A", "B"] {
        let i = table.index_of(name).unwrap();
        let mut st = *table.get(name).unwrap();
        st.set_order_of_arrival(if name == "A" { 1 } else { 2 });
        table.set_status_at(i, st);
    }
    assert_eq!(order.next_player("A", &mut table).unwrap(), None);
}

#[test]
fn next_player_returns_sole_eligible_current() {
    let order = names(&["A", "B"]);
    let mut table = player_table_from_names(&order).unwrap();
    let i = table.index_of("B").unwrap();
    let mut st = *table.get("B").unwrap();
    st.set_order_of_arrival(1);
    table.set_status_at(i, st);
    assert_eq!(order.next_player("A", &mut table).unwrap(), Some(String::from("A")));
}

#[test]
fn duplicate_roster_name_is_rejected() {
    let order = names(&["A", "B", "A"]);
    let err = player_table_from_names(&order).unwrap_err();
    assert_eq!(err, GameSystemError::DuplicatePlayer(String::from("A")));
}

#[test]
fn go_forward_backward_round_trip() {
    let mut st = PlayerStatus { position: 5, num_skip: 0, order_of_arrival: None };
    st.go_forward(3);
    assert_eq!(st.position, 8);
    st.go_backward(3);
    assert_eq!(st.position, 5);
    // Saturation: backward never drops below zero, forward never wraps.
    st.go_backward(100);
    assert_eq!(st.position, 0);
    st.set_position(usize::MAX - 1);
    st.go_forward(10);
    assert_eq!(st.position, usize::MAX);
}

#[test]
fn skip_counter_saturates() {
    let mut st: PlayerStatus = Default::default();
    st.sub_num_skip(1);
    assert_eq!(st.num_skip, 0);
    st.add_num_skip(200);
    st.add_num_skip(200);
    assert_eq!(st.num_skip, 255);
}

#[test]
fn go_to_start_effect_resets_position() {
    let effect = AreaEffect::from_str("GoToStart:").unwrap();
    assert!(matches!(effect, AreaEffect::GoToStart(GoToStart { .. })));
    let order = names(&["A", "B"]);
    let mut table = player_table_from_names(&order).unwrap();
    let i = table.index_of("A").unwrap();
    let mut st = *table.get("A").unwrap();
    st.set_position(4);
    table.set_status_at(i, st);
    effect.execute("A", &order, &mut table).unwrap();
    assert_eq!(table.get("A").unwrap().position, 0);
    assert_eq!(table.get("B").unwrap().position, 0);
}

#[test]
fn effect_error_keeps_earlier_changes() {
    // PushOthersAll moves B before stumbling over the unknown name Z; B's
    // move stays.
    let effect = AreaEffect::PushOthersAll(PushOthersAll { num_step: 2 });
    let order = names(&["A", "B", "Z"]);
    let roster = names(&["A", "B"]);
    let mut table = player_table_from_names(&roster).unwrap();
    let err = effect.execute("A", &order, &mut table).unwrap_err();
    assert_eq!(err, GameSystemError::NotFoundPlayer(String::from("Z")));
    assert_eq!(table.get("B").unwrap().position, 2);
    assert_eq!(table.get("A").unwrap().position, 0);
}

#[test]
fn area_executes_effects_in_order() {
    let area = Area::new(
        String::from("combo"),
        vec![
            AreaEffect::SkipSelf(SkipSelf { num_skip: 1 }),
            AreaEffect::PushSelf(PushSelf { num_step: 3 }),
            AreaEffect::NoEffect(NoEffect::new()),
        ],
    );
    let order = names(&["A"]);
    let mut table = player_table_from_names(&order).unwrap();
    area.execute("A", &order, &mut table).unwrap();
    let a = table.get("A").unwrap();
    assert_eq!(a.num_skip, 1);
    assert_eq!(a.position, 3);
}

#[test]
fn error_messages_match() {
    assert_eq!(GameSystemError::OutOfRangeDice(7).message(), "7");
    assert_eq!(
        GameSystemError::NotFoundPlayer(String::from("X")).message(),
        "Player is not found: X"
    );
    assert_eq!(
        GameSystemError::DuplicatePlayer(String::from("A")).message(),
        "duplicate player: A"
    );
    assert_eq!(
        GameSystemError::OutOfRangePosition(String::from("A"), 3).message(),
        "Position is out of range: A 3"
    );
    assert_eq!(GameSystemError::NoPlayer.message(), "There is no player");
}

#[test]
fn pull_effects_move_backward_and_saturate() {
    let order = names(&["A", "B"]);
    let mut table = player_table_from_names(&order).unwrap();
    for name in ["A", "B"] {
        let i = table.index_of(name).unwrap();
        let mut st = *table.get(name).unwrap();
        st.set_position(3);
        table.set_status_at(i, st);
    }
    let pull = AreaEffect::from_str("PullSelf: num=1").unwrap();
    pull.execute("A", &order, &mut table).unwrap();
    assert_eq!(table.get("A").unwrap().position, 2);
    assert_eq!(table.get("B").unwrap().position, 3);
    let pull_others = AreaEffect::from_str("PullOthersAll: num=9").unwrap();
    pull_others.execute("A", &order, &mut table).unwrap();
    assert_eq!(table.get("A").unwrap().position, 2);
    assert_eq!(table.get("B").unwrap().position, 0);
}

#[test]
fn next_player_rejects_unknown_current() {
    let order = names(&["A", "B"]);
    let mut table = player_table_from_names(&order).unwrap();
    let err = order.next_player("X", &mut table).unwrap_err();
    assert_eq!(err, GameSystemError::NotFoundPlayer(String::from("X")));
}

#[test]
fn roll_effect_error_keeps_partial_state() {
    // The roster order handed to the roll names a player the table lacks:
    // the effect aborts mid-way and what already moved stays moved.
    let prefs: Preferences = Default::default();
    let mut world = small_world(&["PushOthersAll: num=1"], 6);
    let order = names(&["A", "B", "Z"]);
    let roster = names(&["A", "B"]);
    let mut table = player_table_from_names(&roster).unwrap();
    let err = world.dice_roll(&prefs, 1, "A", &order, &mut table).unwrap_err();
    assert_eq!(err, GameSystemError::NotFoundPlayer(String::from("Z")));
    assert_eq!(table.get("A").unwrap().position, 1);
    assert_eq!(table.get("B").unwrap().position, 1);
}
