//! The keystroke-driven user-interface state machine.
//!
//! The terminal itself (drawing, raw input) lives outside the library; this
//! module owns the decisions: which screen is active, what each key does to
//! the game state, and the exact texts shown.

use crate::error::GameSystemError;
use crate::player_status::first_name_index;
use crate::player_status::lemma_first_name_index;
use crate::player_status::lemma_next_player_preserves_flags;
use crate::player_status::spec_next_player;
use crate::player_status::PlayerOrder;
use crate::player_status::PlayerStatus;
use crate::player_status::PlayerStatusTable;
use crate::preferences::Language;
use crate::preferences::Preferences;
use crate::text::all_digits;
use crate::text::dec_str;
use crate::text::push_char;
use crate::text::spec_parse_usize;
use crate::text::str_eq;
use crate::text::strs_view;
use crate::text::usize_to_string;
use crate::world::lemma_ranks_consistent_congruent;
use crate::world::ranks_consistent;
use crate::world::spec_dice_roll;
use crate::world::RollResult;
use crate::world::World;
use vstd::prelude::*;

verus! {

/// A keystroke, as far as the state machine cares: the terminal layer maps
/// its raw events onto this.
#[derive(Clone, Copy, Debug, PartialEq, Eq, Structural)]
pub enum GameKey {
    Char(char),
    Ctrl(char),
    Backspace,
    Esc,
    Other,
}

/// The screen the interface currently shows.
#[derive(Clone, Copy, Debug, PartialEq, Eq, Structural)]
pub enum UiStatus {
    QuitMenu,
    TitleMenu,
    DiceRoll,
    Skip,
    DiceResult,
    GameFinished,
}

/// Everything that can go wrong while driving the interface.
#[derive(Clone, Debug, PartialEq, Eq)]
pub enum UiError {
    /// The engine reported an error.
    Game(GameSystemError),
    /// The collected die digits do not fit a number; carries them.
    InvalidDiceInput(String),
}

/// The texts the interface shows, one field per window.
#[derive(Clone, Debug)]
pub struct TextSet {
    pub main_window: String,
    pub message: String,
    pub dice_string: String,
    pub guidance: String,
    pub player_list: String,
}

impl Default for TextSet {
    /// All windows empty.
    fn default() -> (r: Self)
        ensures
            r.main_window@.len() == 0,
            r.message@.len() == 0,
            r.dice_string@.len() == 0,
            r.guidance@.len() == 0,
            r.player_list@.len() == 0,
    {
        TextSet {
            main_window: String::new(),
            message: String::new(),
            dice_string: String::new(),
            guidance: String::new(),
            player_list: String::new(),
        }
    }
}

/// The rank column of one player-list row: the arrival rank right-aligned
/// to two characters, then a space; blank while the player is in play.
pub open spec fn spec_rank_cell(st: PlayerStatus) -> Seq<char> {
    match st.order_of_arrival {
        Some(x) => (if x < 10 {
            seq![' '] + dec_str(x as int)
        } else {
            dec_str(x as int)
        }) + seq![' '],
        None => (" ")@ + (" ")@ + (" ")@,
    }
}

/// One player-list row: rank column, a die mark on the player whose turn it
/// is, and the name.
pub open spec fn spec_player_row(
    name: Seq<char>,
    current: Seq<char>,
    names: Seq<Seq<char>>,
    sts: Seq<PlayerStatus>,
) -> Seq<char> {
    spec_rank_cell(sts[first_name_index(names, name)]) + (if name == current {
        ("🎲 ")@
    } else {
        ("   ")@
    }) + name + seq!['\n']
}

/// The player-list rows for a roster prefix, in roster order.
pub open spec fn spec_player_rows(
    order: Seq<Seq<char>>,
    current: Seq<char>,
    names: Seq<Seq<char>>,
    sts: Seq<PlayerStatus>,
) -> Seq<char>
    decreases order.len(),
{
    if order.len() == 0 {
        Seq::empty()
    } else {
        spec_player_rows(order.drop_last(), current, names, sts) + spec_player_row(
            order.last(),
            current,
            names,
            sts,
        )
    }
}

/// The header line of the player list.
pub open spec fn spec_player_list_header(language: Language) -> Seq<char> {
    ("🏁 ")@ + ("   ")@ + ("Name")@ + (match language {
        Language::Japanese => ("（名前）")@,
    }) + seq!['\n']
}

/// The guidance text naming the global key bindings.
pub open spec fn spec_guidance(language: Language) -> Seq<char> {
    match language {
        Language::Japanese => ("ESC: 終了メニュー")@ + seq!['\n'] + ("Ctrl-l: 画面再描画")@
            + seq!['\n'] + ("Ctrl-t: タイトル画面に戻る")@,
    }
}

/// The prompt asking for a die value, echoing the digits typed so far.
pub open spec fn spec_prompt_dice_roll(
    language: Language,
    dice_max: int,
    dice_string: Seq<char>,
) -> Seq<char> {
    match language {
        Language::Japanese => ("サイコロを振って出た目を入力してください（最大値: ")@ + dec_str(
            dice_max,
        ) + ("）>> ")@ + dice_string,
    }
}

/// The prompt asking to press enter.
pub open spec fn spec_prompt_enter(language: Language) -> Seq<char> {
    match language {
        Language::Japanese => ("エンターキーを押してください。")@,
    }
}

/// The game-over message.
pub open spec fn spec_prompt_game_finish(language: Language) -> Seq<char> {
    match language {
        Language::Japanese => ("ゲームは終了しました。")@ + seq!['\n'] + (
        "ESCキーを押して終了してください。")@,
    }
}

/// The report that a die value lies outside the allowed range.
pub open spec fn spec_dice_out_of_range(language: Language, dice: int) -> Seq<char> {
    match language {
        Language::Japanese => ("サイコロの目が範囲外です: ")@ + dec_str(dice),
    }
}

/// The report that the player sits this turn out.
pub open spec fn spec_skip_player(language: Language, num_skip: int) -> Seq<char> {
    match language {
        Language::Japanese => ("プレイヤーはお休みです。残り回数: ")@ + dec_str(num_skip),
    }
}

impl TextSet {
    /// Writes the key-binding guidance.
    pub fn set_guidance(&mut self, preferences: &Preferences)
        ensures
            final(self).guidance@ == spec_guidance(preferences.language),
            final(self).main_window == old(self).main_window,
            final(self).message == old(self).message,
            final(self).dice_string == old(self).dice_string,
            final(self).player_list == old(self).player_list,
    {
        match preferences.language() {
            Language::Japanese => {
                let mut s = String::from_str("ESC: 終了メニュー");
                push_char(&mut s, '\n');
                s.append("Ctrl-l: 画面再描画");
                push_char(&mut s, '\n');
                s.append("Ctrl-t: タイトル画面に戻る");
                self.guidance = s;
            },
        }
    }

    /// Writes the die prompt, echoing the digits typed so far.
    pub fn set_prompt_dice_roll(&mut self, preferences: &Preferences, dice_max: usize)
        ensures
            final(self).message@ == spec_prompt_dice_roll(
                preferences.language,
                dice_max as int,
                old(self).dice_string@,
            ),
            final(self).main_window == old(self).main_window,
            final(self).dice_string == old(self).dice_string,
            final(self).guidance == old(self).guidance,
            final(self).player_list == old(self).player_list,
    {
        match preferences.language() {
            Language::Japanese => {
                let mut s = String::from_str("サイコロを振って出た目を入力してください（最大値: ");
                let n = usize_to_string(dice_max);
                s.append(n.as_str());
                s.append("）>> ");
                s.append(self.dice_string.as_str());
                self.message = s;
            },
        }
    }

    /// Writes the press-enter prompt.
    pub fn set_prompt_enter(&mut self, preferences: &Preferences)
        ensures
            final(self).message@ == spec_prompt_enter(preferences.language),
            final(self).main_window == old(self).main_window,
            final(self).dice_string == old(self).dice_string,
            final(self).guidance == old(self).guidance,
            final(self).player_list == old(self).player_list,
    {
        match preferences.language() {
            Language::Japanese => {
                self.message = String::from_str("エンターキーを押してください。");
            },
        }
    }

    /// Writes the game-over message and clears the main window.
    pub fn set_prompt_game_finish(&mut self, preferences: &Preferences)
        ensures
            final(self).message@ == spec_prompt_game_finish(preferences.language),
            final(self).main_window@.len() == 0,
            final(self).dice_string == old(self).dice_string,
            final(self).guidance == old(self).guidance,
            final(self).player_list == old(self).player_list,
    {
        self.main_window = String::new();
        match preferences.language() {
            Language::Japanese => {
                let mut s = String::from_str("ゲームは終了しました。");
                push_char(&mut s, '\n');
                s.append("ESCキーを押して終了してください。");
                self.message = s;
            },
        }
    }

    /// Reports an out-of-range die value in the main window.
    pub fn set_dice_is_out_of_range(&mut self, preferences: &Preferences, dice: usize)
        ensures
            final(self).main_window@ == spec_dice_out_of_range(preferences.language, dice as int),
            final(self).message == old(self).message,
            final(self).dice_string == old(self).dice_string,
            final(self).guidance == old(self).guidance,
            final(self).player_list == old(self).player_list,
    {
        match preferences.language() {
            Language::Japanese => {
                let mut s = String::from_str("サイコロの目が範囲外です: ");
                let n = usize_to_string(dice);
                s.append(n.as_str());
                self.main_window = s;
            },
        }
    }

    /// Reports in the main window that the player sits this turn out.
    pub fn set_skip_player(&mut self, preferences: &Preferences, num_skip: u8)
        ensures
            final(self).main_window@ == spec_skip_player(preferences.language, num_skip as int),
            final(self).message == old(self).message,
            final(self).dice_string == old(self).dice_string,
            final(self).guidance == old(self).guidance,
            final(self).player_list == old(self).player_list,
    {
        match preferences.language() {
            Language::Japanese => {
                let mut s = String::from_str("プレイヤーはお休みです。残り回数: ");
                let n = usize_to_string(num_skip as usize);
                s.append(n.as_str());
                self.main_window = s;
            },
        }
    }

    /// Rebuilds the player list: a header line, then one row per player in
    /// roster order.  A name missing from the table stops the build at that
    /// row and reports it.
    pub fn set_player_list(
        &mut self,
        preferences: &Preferences,
        current_player: &str,
        player_order: &Vec<String>,
        player_status_table: &PlayerStatusTable,
    ) -> (r: Result<(), GameSystemError>)
        requires
            player_status_table.wf(),
        ensures
            final(self).main_window == old(self).main_window,
            final(self).message == old(self).message,
            final(self).dice_string == old(self).dice_string,
            final(self).guidance == old(self).guidance,
            ({
                let ordv = strs_view(player_order@);
                let names = player_status_table.names_view();
                let sts = player_status_table.statuses@;
                let header = spec_player_list_header(preferences.language);
                match r {
                    Ok(()) => {
                        &&& forall|k: int|
                            0 <= k < ordv.len() ==> first_name_index(names, #[trigger] ordv[k])
                                >= 0
                        &&& final(self).player_list@ == header + spec_player_rows(
                            ordv,
                            current_player@,
                            names,
                            sts,
                        )
                    },
                    Err(GameSystemError::NotFoundPlayer(nm)) => exists|k: int|
                        {
                            &&& 0 <= k < ordv.len()
                            &&& first_name_index(names, #[trigger] ordv[k]) < 0
                            &&& nm@ == ordv[k]
                            &&& forall|k2: int|
                                0 <= k2 < k ==> first_name_index(names, #[trigger] ordv[k2]) >= 0
                            &&& final(self).player_list@ == header + spec_player_rows(
                                ordv.take(k),
                                current_player@,
                                names,
                                sts,
                            )
                        },
                    Err(_) => false,
                }
            }),
    {
        let ghost ordv = strs_view(player_order@);
        let ghost names = player_status_table.names_view();
        let ghost sts = player_status_table.statuses@;
        let mut s = String::from_str("🏁 ");
        s.append("   ");
        s.append("Name");
        match preferences.language() {
            Language::Japanese => s.append("（名前）"),
        }
        push_char(&mut s, '\n');
        let ghost header = spec_player_list_header(preferences.language);
        proof {
            assert(s@ == header);
            assert(ordv.take(0) =~= Seq::<Seq<char>>::empty());
        }
        let n = player_order.len();
        let mut j: usize = 0;
        while j < n
            invariant
                n == player_order@.len(),
                j <= n,
                *self == *old(self),
                ordv == strs_view(player_order@),
                names == player_status_table.names_view(),
                sts == player_status_table.statuses@,
                player_status_table.wf(),
                header == spec_player_list_header(preferences.language),
                s@ == header + spec_player_rows(
                    ordv.take(j as int),
                    current_player@,
                    names,
                    sts,
                ),
                forall|k: int| 0 <= k < j ==> first_name_index(names, #[trigger] ordv[k]) >= 0,
            decreases n - j,
        {
            let player: &String = &player_order[j];
            proof {
                assert(ordv[j as int] == player_order@[j as int]@);
            }
            match player_status_table.get(player.as_str()) {
                None => {
                    proof {
                        lemma_first_name_index(names, player@);
                    }
                    self.player_list = s;
                    return Err(GameSystemError::NotFoundPlayer(player.clone()));
                },
                Some(st_ref) => {
                    let st = *st_ref;
                    proof {
                        lemma_first_name_index(names, player@);
                    }
                    match st.order_of_arrival {
                        Some(x) => {
                            if x < 10 {
                                push_char(&mut s, ' ');
                            }
                            let rendered = usize_to_string(x as usize);
                            s.append(rendered.as_str());
                            push_char(&mut s, ' ');
                        },
                        None => {
                            s.append(" ");
                            s.append(" ");
                            s.append(" ");
                        },
                    }
                    if str_eq(player.as_str(), current_player) {
                        s.append("🎲 ");
                    } else {
                        s.append("   ");
                    }
                    s.append(player.as_str());
                    push_char(&mut s, '\n');
                    proof {
                        assert(ordv.take(j + 1).drop_last() =~= ordv.take(j as int));
                        assert(ordv.take(j + 1).last() == ordv[j as int]);
                        assert(s@ == header + spec_player_rows(
                            ordv.take(j + 1),
                            current_player@,
                            names,
                            sts,
                        ));
                    }
                },
            }
            j = j + 1;
        }
        proof {
            assert(ordv.take(n as int) =~= ordv);
        }
        self.player_list = s;
        Ok(())
    }
}

/// The whole state the interface owns: the engine state plus the screen
/// state and the shown texts.
#[derive(Debug)]
pub struct GameData {
    pub world: World,
    pub current_player: String,
    pub player_order: Vec<String>,
    pub player_status_table: PlayerStatusTable,
    pub ui_status: UiStatus,
    pub ui_status_buffer: UiStatus,
    pub text_set: TextSet,
}

impl GameData {
    /// Well-formed: the board and table invariants hold, the table is small
    /// enough to rank everyone, and the collected die input is all digits.
    pub open spec fn wf(self) -> bool {
        &&& self.world.wf()
        &&& self.player_status_table.wf()
        &&& self.player_status_table.spec_len() <= u8::MAX
        &&& ranks_consistent(
            self.world.num_goal_player as int,
            self.player_status_table.statuses@,
        )
        &&& all_digits(self.text_set.dice_string@)
    }

    /// Starts a game on the title screen with the first player of the
    /// roster; an empty roster is rejected.
    pub fn try_new(
        world: World,
        player_order: Vec<String>,
        player_status_table: PlayerStatusTable,
    ) -> (r: Result<GameData, GameSystemError>)
        requires
            world.wf(),
            player_status_table.wf(),
            player_status_table.spec_len() <= u8::MAX,
            ranks_consistent(world.num_goal_player as int, player_status_table.statuses@),
        ensures
            match r {
                Ok(g) => {
                    &&& player_order@.len() > 0
                    &&& g.world == world
                    &&& g.current_player@ == player_order@[0]@
                    &&& g.player_order == player_order
                    &&& g.player_status_table == player_status_table
                    &&& g.ui_status == UiStatus::TitleMenu
                    &&& g.ui_status_buffer == UiStatus::TitleMenu
                    &&& g.text_set.dice_string@.len() == 0
                    &&& g.wf()
                },
                Err(GameSystemError::NoPlayer) => player_order@.len() == 0,
                Err(_) => false,
            },
    {
        if player_order.len() == 0 {
            return Err(GameSystemError::NoPlayer);
        }
        let current_player = player_order[0].clone();
        Ok(
            GameData {
                world,
                current_player,
                player_order,
                player_status_table,
                ui_status: UiStatus::TitleMenu,
                ui_status_buffer: UiStatus::TitleMenu,
                text_set: Default::default(),
            },
        )
    }

    /// Fills every window for the title screen: guidance, die prompt,
    /// player list, and the start square's description.
    pub fn init(&mut self, preferences: &Preferences) -> (r: Result<(), GameSystemError>)
        requires
            old(self).wf(),
        ensures
            final(self).wf(),
            final(self).world == old(self).world,
            final(self).current_player == old(self).current_player,
            final(self).player_order == old(self).player_order,
            final(self).player_status_table == old(self).player_status_table,
            final(self).ui_status == old(self).ui_status,
            final(self).ui_status_buffer == old(self).ui_status_buffer,
            final(self).text_set.dice_string == old(self).text_set.dice_string,
            final(self).text_set.guidance@ == spec_guidance(preferences.language),
            final(self).text_set.message@ == spec_prompt_dice_roll(
                preferences.language,
                old(self).world.dice_max as int,
                old(self).text_set.dice_string@,
            ),
            ({
                let ordv = strs_view(old(self).player_order@);
                let names = old(self).player_status_table.names_view();
                let sts = old(self).player_status_table.statuses@;
                let header = spec_player_list_header(preferences.language);
                match r {
                    Ok(()) => {
                        &&& final(self).text_set.player_list@ == header + spec_player_rows(
                            ordv,
                            old(self).current_player@,
                            names,
                            sts,
                        )
                        &&& final(self).text_set.main_window@ == old(self).world.area_list@[
                            0
                        ].spec_description(preferences.language)
                    },
                    Err(GameSystemError::NotFoundPlayer(nm)) => {
                        &&& exists|k: int|
                            0 <= k < ordv.len() && first_name_index(names, #[trigger] ordv[k]) < 0
                                && nm@ == ordv[k]
                        &&& final(self).text_set.main_window == old(self).text_set.main_window
                    },
                    Err(_) => false,
                }
            }),
    {
        self.text_set.set_guidance(preferences);
        let dice_max = self.world.dice_max();
        self.text_set.set_prompt_dice_roll(preferences, dice_max);
        match self.text_set.set_player_list(
            preferences,
            self.current_player.as_str(),
            &self.player_order,
            &self.player_status_table,
        ) {
            Ok(()) => {},
            Err(e) => {
                return Err(e);
            },
        }
        self.text_set.main_window = self.world.start_description(preferences);
        Ok(())
    }

    /// Hands the turn to the next eligible player: on success the result
    /// screen is shown for them, and when nobody is eligible any more the
    /// game-over screen is shown.
    pub fn change_player(&mut self) -> (r: Result<(), GameSystemError>)
        requires
            old(self).wf(),
        ensures
            final(self).wf(),
            final(self).world == old(self).world,
            final(self).player_order == old(self).player_order,
            final(self).text_set == old(self).text_set,
            final(self).player_status_table.names@ == old(self).player_status_table.names@,
            ({
                let ord = strs_view(old(self).player_order@);
                let names = old(self).player_status_table.names_view();
                let sts0 = old(self).player_status_table.statuses@;
                let k = first_name_index(ord, old(self).current_player@);
                if k < 0 {
                    &&& final(self).player_status_table.statuses@ == sts0
                    &&& final(self).current_player == old(self).current_player
                    &&& final(self).ui_status == old(self).ui_status
                    &&& final(self).ui_status_buffer == old(self).ui_status_buffer
                    &&& match r {
                        Err(GameSystemError::NotFoundPlayer(nm)) => nm@ == old(
                            self,
                        ).current_player@,
                        _ => false,
                    }
                } else {
                    let cands = ord.skip(k + 1) + ord.take(k + 1);
                    match spec_next_player(cands, names, sts0) {
                        Ok((Some(p), sts)) => {
                            &&& r is Ok
                            &&& final(self).player_status_table.statuses@ == sts
                            &&& final(self).current_player@ == p
                            &&& final(self).ui_status == UiStatus::DiceResult
                            &&& final(self).ui_status_buffer == UiStatus::DiceResult
                        },
                        Ok((None, sts)) => {
                            &&& r is Ok
                            &&& final(self).player_status_table.statuses@ == sts
                            &&& final(self).current_player == old(self).current_player
                            &&& final(self).ui_status == UiStatus::GameFinished
                            &&& final(self).ui_status_buffer == UiStatus::GameFinished
                        },
                        Err((missing, sts)) => {
                            &&& final(self).player_status_table.statuses@ == sts
                            &&& final(self).current_player == old(self).current_player
                            &&& final(self).ui_status == old(self).ui_status
                            &&& final(self).ui_status_buffer == old(self).ui_status_buffer
                            &&& match r {
                                Err(GameSystemError::NotFoundPlayer(nm)) => nm@ == missing,
                                _ => false,
                            }
                        },
                    }
                }
            }),
    {
        let ghost sts0 = self.player_status_table.statuses@;
        let ghost ord = strs_view(self.player_order@);
        let ghost names = self.player_status_table.names_view();
        let ghost num = self.world.num_goal_player as int;
        let next = self.player_order.next_player(
            self.current_player.as_str(),
            &mut self.player_status_table,
        );
        proof {
            let k = first_name_index(ord, old(self).current_player@);
            if k >= 0 {
                let cands = ord.skip(k + 1) + ord.take(k + 1);
                lemma_next_player_preserves_flags(cands, names, sts0);
                lemma_ranks_consistent_congruent(num, sts0, self.player_status_table.statuses@);
            }
        }
        match next {
            Ok(Some(player)) => {
                self.ui_status = UiStatus::DiceResult;
                self.ui_status_buffer = UiStatus::DiceResult;
                self.current_player = player;
                Ok(())
            },
            Ok(None) => {
                self.ui_status = UiStatus::GameFinished;
                self.ui_status_buffer = UiStatus::GameFinished;
                Ok(())
            },
            Err(e) => Err(e),
        }
    }

    /// Keys on the title screen: enter starts the game, escape opens the
    /// quit menu.
    pub fn title_menu(&mut self, _preferences: &Preferences, key: GameKey) -> (r: Result<
        (),
        GameSystemError,
    >)
        requires
            old(self).wf(),
        ensures
            final(self).wf(),
            r is Ok,
            final(self).world == old(self).world,
            final(self).current_player == old(self).current_player,
            final(self).player_order == old(self).player_order,
            final(self).player_status_table == old(self).player_status_table,
            final(self).text_set == old(self).text_set,
            if key == GameKey::Char('\n') {
                final(self).ui_status == UiStatus::DiceRoll && final(self).ui_status_buffer
                    == UiStatus::DiceRoll
            } else if key == GameKey::Esc {
                final(self).ui_status == UiStatus::QuitMenu && final(self).ui_status_buffer == old(
                    self,
                ).ui_status_buffer
            } else {
                final(self).ui_status == old(self).ui_status && final(self).ui_status_buffer
                    == old(self).ui_status_buffer
            },
    {
        match key {
            GameKey::Char(c) => {
                if c == '\n' {
                    self.ui_status = UiStatus::DiceRoll;
                    self.ui_status_buffer = UiStatus::DiceRoll;
                }
            },
            GameKey::Esc => {
                self.ui_status = UiStatus::QuitMenu;
            },
            _ => {},
        }
        Ok(())
    }

    /// Keys on the quit menu: a capital Y confirms quitting, anything else
    /// but a redraw returns to the interrupted screen.
    pub fn quit_menu(&mut self, _preferences: &Preferences, key: GameKey) -> (r: Result<
        bool,
        GameSystemError,
    >)
        requires
            old(self).wf(),
        ensures
            final(self).wf(),
            final(self).world == old(self).world,
            final(self).current_player == old(self).current_player,
            final(self).player_order == old(self).player_order,
            final(self).player_status_table == old(self).player_status_table,
            final(self).text_set == old(self).text_set,
            final(self).ui_status_buffer == old(self).ui_status_buffer,
            (r == Ok::<bool, GameSystemError>(true)) <==> key == GameKey::Char('Y'),
            r is Ok,
            if key == GameKey::Char('Y') || key == GameKey::Ctrl('l') {
                final(self).ui_status == old(self).ui_status
            } else {
                final(self).ui_status == old(self).ui_status_buffer
            },
    {
        match key {
            GameKey::Char(c) => {
                if c == 'Y' {
                    return Ok(true);
                }
                self.ui_status = self.ui_status_buffer;
                Ok(false)
            },
            GameKey::Ctrl(c) => {
                if c == 'l' {
                    return Ok(false);
                }
                self.ui_status = self.ui_status_buffer;
                Ok(false)
            },
            _ => {
                self.ui_status = self.ui_status_buffer;
                Ok(false)
            },
        }
    }

    /// Keys on the game-over screen: enter shows the closing message,
    /// escape and Ctrl-t leave the screen.
    pub fn game_finished(&mut self, preferences: &Preferences, key: GameKey) -> (r: Result<
        (),
        GameSystemError,
    >)
        requires
            old(self).wf(),
        ensures
            final(self).wf(),
            r is Ok,
            final(self).world == old(self).world,
            final(self).current_player == old(self).current_player,
            final(self).player_order == old(self).player_order,
            final(self).player_status_table == old(self).player_status_table,
            final(self).text_set.dice_string == old(self).text_set.dice_string,
            final(self).text_set.guidance == old(self).text_set.guidance,
            final(self).text_set.player_list == old(self).text_set.player_list,
            if key == GameKey::Char('\n') {
                &&& final(self).text_set.message@ == spec_prompt_game_finish(preferences.language)
                &&& final(self).text_set.main_window@.len() == 0
                &&& final(self).ui_status == old(self).ui_status
                &&& final(self).ui_status_buffer == old(self).ui_status_buffer
            } else {
                &&& final(self).text_set == old(self).text_set
                &&& if key == GameKey::Esc {
                    final(self).ui_status == UiStatus::QuitMenu && final(self).ui_status_buffer
                        == old(self).ui_status
                } else if key == GameKey::Ctrl('t') {
                    final(self).ui_status == UiStatus::TitleMenu && final(self).ui_status_buffer
                        == old(self).ui_status
                } else {
                    final(self).ui_status == old(self).ui_status && final(self).ui_status_buffer
                        == old(self).ui_status_buffer
                }
            },
    {
        match key {
            GameKey::Char(c) => {
                if c == '\n' {
                    self.text_set.set_prompt_game_finish(preferences);
                }
            },
            GameKey::Esc => {
                self.ui_status_buffer = self.ui_status;
                self.ui_status = UiStatus::QuitMenu;
            },
            GameKey::Ctrl(c) => {
                if c == 't' {
                    self.ui_status_buffer = self.ui_status;
                    self.ui_status = UiStatus::TitleMenu;
                }
            },
            _ => {},
        }
        Ok(())
    }

    /// Keys on the sit-out screen: enter consumes one pending skip of the
    /// waiting player and hands the turn on.
    pub fn skip(&mut self, preferences: &Preferences, key: GameKey) -> (r: Result<
        (),
        GameSystemError,
    >)
        requires
            old(self).wf(),
        ensures
            final(self).wf(),
            final(self).world == old(self).world,
            final(self).player_order == old(self).player_order,
            final(self).player_status_table.names@ == old(self).player_status_table.names@,
            final(self).text_set.dice_string == old(self).text_set.dice_string,
            final(self).text_set.guidance == old(self).text_set.guidance,
            final(self).text_set.player_list == old(self).text_set.player_list,
            if key == GameKey::Char('\n') {
                ({
                    let ord = strs_view(old(self).player_order@);
                    let names = old(self).player_status_table.names_view();
                    let sts0 = old(self).player_status_table.statuses@;
                    let i = first_name_index(names, old(self).current_player@);
                    if i < 0 {
                        &&& final(self).player_status_table.statuses@ == sts0
                        &&& final(self).current_player == old(self).current_player
                        &&& final(self).ui_status == old(self).ui_status
                        &&& final(self).ui_status_buffer == old(self).ui_status_buffer
                        &&& final(self).text_set == old(self).text_set
                        &&& match r {
                            Err(GameSystemError::NotFoundPlayer(nm)) => nm@ == old(
                                self,
                            ).current_player@,
                            _ => false,
                        }
                    } else {
                        let sts1 = sts0.update(i, sts0[i].spec_sub_num_skip(1));
                        let k = first_name_index(ord, old(self).current_player@);
                        &&& final(self).text_set.message@ == spec_prompt_enter(
                            preferences.language,
                        )
                        &&& final(self).text_set.main_window@.len() == 0
                        &&& if k < 0 {
                            &&& final(self).player_status_table.statuses@ == sts1
                            &&& final(self).current_player == old(self).current_player
                            &&& match r {
                                Err(GameSystemError::NotFoundPlayer(nm)) => nm@ == old(
                                    self,
                                ).current_player@,
                                _ => false,
                            }
                        } else {
                            let cands = ord.skip(k + 1) + ord.take(k + 1);
                            match spec_next_player(cands, names, sts1) {
                                Ok((Some(p), sts)) => {
                                    &&& r is Ok
                                    &&& final(self).player_status_table.statuses@ == sts
                                    &&& final(self).current_player@ == p
                                    &&& final(self).ui_status == UiStatus::DiceResult
                                    &&& final(self).ui_status_buffer == UiStatus::DiceResult
                                },
                                Ok((None, sts)) => {
                                    &&& r is Ok
                                    &&& final(self).player_status_table.statuses@ == sts
                                    &&& final(self).current_player == old(self).current_player
                                    &&& final(self).ui_status == UiStatus::GameFinished
                                    &&& final(self).ui_status_buffer == UiStatus::GameFinished
                                },
                                Err((missing, sts)) => {
                                    &&& final(self).player_status_table.statuses@ == sts
                                    &&& final(self).current_player == old(self).current_player
                                    &&& match r {
                                        Err(GameSystemError::NotFoundPlayer(nm)) => nm@ == missing,
                                        _ => false,
                                    }
                                },
                            }
                        }
                    }
                })
            } else {
                &&& r is Ok
                &&& final(self).player_status_table == old(self).player_status_table
                &&& final(self).current_player == old(self).current_player
                &&& final(self).text_set == old(self).text_set
                &&& if key == GameKey::Esc {
                    final(self).ui_status == UiStatus::QuitMenu && final(self).ui_status_buffer
                        == old(self).ui_status
                } else if key == GameKey::Ctrl('t') {
                    final(self).ui_status == UiStatus::TitleMenu && final(self).ui_status_buffer
                        == old(self).ui_status
                } else {
                    final(self).ui_status == old(self).ui_status && final(self).ui_status_buffer
                        == old(self).ui_status_buffer
                }
            },
    {
        match key {
            GameKey::Char(c) => {
                if c == '\n' {
                    let ghost names = self.player_status_table.names_view();
                    let ghost sts0 = self.player_status_table.statuses@;
                    let i = match self.player_status_table.index_of(self.current_player.as_str()) {
                        Some(i) => i,
                        None => {
                            return Err(
                                GameSystemError::NotFoundPlayer(self.current_player.clone()),
                            );
                        },
                    };
                    proof {
                        lemma_first_name_index(names, self.current_player@);
                    }
                    let mut st = *self.player_status_table.status_at(i);
                    st.sub_num_skip(1);
                    self.player_status_table.set_status_at(i, st);
                    self.text_set.set_prompt_enter(preferences);
                    self.text_set.main_window = String::new();
                    proof {
                        assert forall|q: int|
                            0 <= q < sts0.len() implies (#[trigger] sts0[q]).order_of_arrival
                            == self.player_status_table.statuses@[q].order_of_arrival by {}
                        lemma_ranks_consistent_congruent(
                            self.world.num_goal_player as int,
                            sts0,
                            self.player_status_table.statuses@,
                        );
                    }
                    match self.change_player() {
                        Ok(()) => Ok(()),
                        Err(e) => Err(e),
                    }
                } else {
                    Ok(())
                }
            },
            GameKey::Esc => {
                self.ui_status_buffer = self.ui_status;
                self.ui_status = UiStatus::QuitMenu;
                Ok(())
            },
            GameKey::Ctrl(c) => {
                if c == 't' {
                    self.ui_status_buffer = self.ui_status;
                    self.ui_status = UiStatus::TitleMenu;
                }
                Ok(())
            },
            _ => Ok(()),
        }
    }

    /// Keys on the result screen: enter moves on, either to the next die
    /// prompt or, when the player has pending skips, to the sit-out screen,
    /// and rebuilds the player list.
    pub fn dice_result(&mut self, preferences: &Preferences, key: GameKey) -> (r: Result<
        (),
        GameSystemError,
    >)
        requires
            old(self).wf(),
        ensures
            final(self).wf(),
            final(self).world == old(self).world,
            final(self).current_player == old(self).current_player,
            final(self).player_order == old(self).player_order,
            final(self).player_status_table == old(self).player_status_table,
            final(self).text_set.guidance == old(self).text_set.guidance,
            if key == GameKey::Char('\n') {
                ({
                    let lang = preferences.language;
                    let names = old(self).player_status_table.names_view();
                    let sts = old(self).player_status_table.statuses@;
                    let i = first_name_index(names, old(self).current_player@);
                    if i < 0 {
                        &&& *final(self) == *old(self)
                        &&& match r {
                            Err(GameSystemError::NotFoundPlayer(nm)) => nm@ == old(
                                self,
                            ).current_player@,
                            _ => false,
                        }
                    } else {
                        let ns = sts[i].num_skip;
                        &&& if ns == 0 {
                            &&& final(self).ui_status == UiStatus::DiceRoll
                            &&& final(self).ui_status_buffer == UiStatus::DiceRoll
                            &&& final(self).text_set.dice_string@.len() == 0
                            &&& final(self).text_set.message@ == spec_prompt_dice_roll(
                                lang,
                                old(self).world.dice_max as int,
                                Seq::<char>::empty(),
                            )
                            &&& r is Ok ==> final(self).text_set.main_window@.len() == 0
                        } else {
                            &&& final(self).ui_status == UiStatus::Skip
                            &&& final(self).ui_status_buffer == UiStatus::Skip
                            &&& final(self).text_set.dice_string == old(self).text_set.dice_string
                            &&& final(self).text_set.message@ == spec_prompt_enter(lang)
                            &&& r is Ok ==> final(self).text_set.main_window@ == spec_skip_player(
                                lang,
                                ns as int,
                            )
                        }
                        &&& match r {
                            Ok(()) => final(self).text_set.player_list@ == spec_player_list_header(
                                lang,
                            ) + spec_player_rows(
                                strs_view(old(self).player_order@),
                                old(self).current_player@,
                                names,
                                sts,
                            ),
                            Err(GameSystemError::NotFoundPlayer(nm)) => exists|k: int|
                                0 <= k < strs_view(old(self).player_order@).len()
                                    && first_name_index(
                                    names,
                                    #[trigger] strs_view(old(self).player_order@)[k],
                                ) < 0 && nm@ == strs_view(old(self).player_order@)[k],
                            Err(_) => false,
                        }
                    }
                })
            } else {
                &&& r is Ok
                &&& final(self).text_set == old(self).text_set
                &&& if key == GameKey::Esc {
                    final(self).ui_status == UiStatus::QuitMenu && final(self).ui_status_buffer
                        == old(self).ui_status
                } else if key == GameKey::Ctrl('t') {
                    final(self).ui_status == UiStatus::TitleMenu && final(self).ui_status_buffer
                        == old(self).ui_status
                } else {
                    final(self).ui_status == old(self).ui_status && final(self).ui_status_buffer
                        == old(self).ui_status_buffer
                }
            },
    {
        match key {
            GameKey::Char(c) => {
                if c == '\n' {
                    let ghost names = self.player_status_table.names_view();
                    let num_skip_of_current_player = match self.player_status_table.get(
                        self.current_player.as_str(),
                    ) {
                        Some(st) => st.num_skip,
                        None => {
                            return Err(
                                GameSystemError::NotFoundPlayer(self.current_player.clone()),
                            );
                        },
                    };
                    proof {
                        lemma_first_name_index(names, self.current_player@);
                    }
                    if num_skip_of_current_player == 0 {
                        self.ui_status = UiStatus::DiceRoll;
                        self.ui_status_buffer = UiStatus::DiceRoll;
                        self.text_set.dice_string = String::new();
                        self.text_set.main_window = String::new();
                        let dice_max = self.world.dice_max();
                        self.text_set.set_prompt_dice_roll(preferences, dice_max);
                    } else {
                        self.ui_status = UiStatus::Skip;
                        self.ui_status_buffer = UiStatus::Skip;
                        self.text_set.set_prompt_enter(preferences);
                        self.text_set.set_skip_player(preferences, num_skip_of_current_player);
                    }
                    match self.text_set.set_player_list(
                        preferences,
                        self.current_player.as_str(),
                        &self.player_order,
                        &self.player_status_table,
                    ) {
                        Ok(()) => Ok(()),
                        Err(e) => Err(e),
                    }
                } else {
                    Ok(())
                }
            },
            GameKey::Esc => {
                self.ui_status_buffer = self.ui_status;
                self.ui_status = UiStatus::QuitMenu;
                Ok(())
            },
            GameKey::Ctrl(c) => {
                if c == 't' {
                    self.ui_status_buffer = self.ui_status;
                    self.ui_status = UiStatus::TitleMenu;
                }
                Ok(())
            },
            _ => Ok(()),
        }
    }

    /// Keys on the die prompt: digits collect the die value (no leading
    /// zero), backspace removes one, and enter resolves the roll and hands
    /// the turn on.
    pub fn dice_roll(&mut self, preferences: &Preferences, key: GameKey) -> (r: Result<
        (),
        UiError,
    >)
        requires
            old(self).wf(),
        ensures
            final(self).wf(),
            final(self).player_order == old(self).player_order,
            final(self).world.title == old(self).world.title,
            final(self).world.opening_msg == old(self).world.opening_msg,
            final(self).world.dice_max == old(self).world.dice_max,
            final(self).world.area_list == old(self).world.area_list,
            final(self).player_status_table.names@ == old(self).player_status_table.names@,
            final(self).text_set.guidance == old(self).text_set.guidance,
            final(self).text_set.player_list == old(self).text_set.player_list,
            ({
                let g = *old(self);
                let lang = preferences.language;
                let ds = g.text_set.dice_string@;
                match key {
                    GameKey::Char(c) => {
                        if c == '\n' {
                            if ds.len() == 0 {
                                *final(self) == g && r is Ok
                            } else {
                                spec_roll_enter(g, lang, r, *final(self))
                            }
                        } else if c == '0' && ds.len() == 0 {
                            *final(self) == g && r is Ok
                        } else if crate::text::is_digit(c) {
                            &&& r is Ok
                            &&& final(self).text_set.dice_string@ == ds.push(c)
                            &&& final(self).text_set.message@ == spec_prompt_dice_roll(
                                lang,
                                g.world.dice_max as int,
                                ds.push(c),
                            )
                            &&& final(self).text_set.main_window == g.text_set.main_window
                            &&& final(self).world == g.world
                            &&& final(self).player_status_table == g.player_status_table
                            &&& final(self).current_player == g.current_player
                            &&& final(self).ui_status == g.ui_status
                            &&& final(self).ui_status_buffer == g.ui_status_buffer
                        } else {
                            *final(self) == g && r is Ok
                        }
                    },
                    GameKey::Backspace => {
                        let ds2 = if ds.len() > 0 {
                            ds.drop_last()
                        } else {
                            ds
                        };
                        &&& r is Ok
                        &&& final(self).text_set.dice_string@ == ds2
                        &&& final(self).text_set.message@ == spec_prompt_dice_roll(
                            lang,
                            g.world.dice_max as int,
                            ds2,
                        )
                        &&& final(self).text_set.main_window == g.text_set.main_window
                        &&& final(self).world == g.world
                        &&& final(self).player_status_table == g.player_status_table
                        &&& final(self).current_player == g.current_player
                        &&& final(self).ui_status == g.ui_status
                        &&& final(self).ui_status_buffer == g.ui_status_buffer
                    },
                    GameKey::Esc => {
                        &&& r is Ok
                        &&& final(self).text_set == g.text_set
                        &&& final(self).world == g.world
                        &&& final(self).player_status_table == g.player_status_table
                        &&& final(self).current_player == g.current_player
                        &&& final(self).ui_status == UiStatus::QuitMenu
                        &&& final(self).ui_status_buffer == g.ui_status
                    },
                    GameKey::Ctrl(c) => {
                        &&& r is Ok
                        &&& final(self).text_set == g.text_set
                        &&& final(self).world == g.world
                        &&& final(self).player_status_table == g.player_status_table
                        &&& final(self).current_player == g.current_player
                        &&& if c == 't' {
                            final(self).ui_status == UiStatus::TitleMenu
                                && final(self).ui_status_buffer == g.ui_status
                        } else {
                            final(self).ui_status == g.ui_status && final(self).ui_status_buffer
                                == g.ui_status_buffer
                        }
                    },
                    GameKey::Other => *final(self) == g && r is Ok,
                }
            }),
    {
        match key {
            GameKey::Char(c) => {
                let u = c as u32;
                if u == 0x0A {
                    if self.text_set.dice_string.as_str().is_empty() {
                        return Ok(());
                    }
                    self.text_set.set_prompt_enter(preferences);
                    let dice = match crate::text::parse_usize(self.text_set.dice_string.as_str()) {
                        Some(d) => d,
                        None => {
                            return Err(UiError::InvalidDiceInput(self.text_set.dice_string.clone()));
                        },
                    };
                    let roll = self.world.dice_roll(
                        preferences,
                        dice,
                        self.current_player.as_str(),
                        &self.player_order,
                        &mut self.player_status_table,
                    );
                    match roll {
                        Ok(main_window_text) => {
                            self.text_set.main_window = main_window_text;
                            match self.change_player() {
                                Ok(()) => Ok(()),
                                Err(e) => Err(UiError::Game(e)),
                            }
                        },
                        Err(GameSystemError::OutOfRangeDice(d)) => {
                            self.ui_status = UiStatus::DiceResult;
                            self.ui_status_buffer = UiStatus::DiceResult;
                            self.text_set.set_dice_is_out_of_range(preferences, d);
                            Ok(())
                        },
                        Err(e) => Err(UiError::Game(e)),
                    }
                } else if u == 0x30 {
                    if !self.text_set.dice_string.as_str().is_empty() {
                        push_char(&mut self.text_set.dice_string, c);
                        let dice_max = self.world.dice_max();
                        self.text_set.set_prompt_dice_roll(preferences, dice_max);
                    }
                    Ok(())
                } else if 0x31 <= u && u <= 0x39 {
                    push_char(&mut self.text_set.dice_string, c);
                    let dice_max = self.world.dice_max();
                    self.text_set.set_prompt_dice_roll(preferences, dice_max);
                    Ok(())
                } else {
                    Ok(())
                }
            },
            GameKey::Backspace => {
                let len = self.text_set.dice_string.unicode_len();
                if len > 0 {
                    self.text_set.dice_string = self.text_set.dice_string.as_str().substring_char(
                        0,
                        len - 1,
                    ).to_owned();
                    proof {
                        assert(self.text_set.dice_string@ =~= old(
                            self,
                        ).text_set.dice_string@.drop_last());
                    }
                }
                let dice_max = self.world.dice_max();
                self.text_set.set_prompt_dice_roll(preferences, dice_max);
                Ok(())
            },
            GameKey::Esc => {
                self.ui_status_buffer = self.ui_status;
                self.ui_status = UiStatus::QuitMenu;
                Ok(())
            },
            GameKey::Ctrl(c) => {
                if c == 't' {
                    self.ui_status_buffer = self.ui_status;
                    self.ui_status = UiStatus::TitleMenu;
                }
                Ok(())
            },
            GameKey::Other => Ok(()),
        }
    }

    /// Handles one keystroke on whatever screen is active; the result says
    /// whether the session should end.
    pub fn transition(&mut self, preferences: &Preferences, key: GameKey) -> (r: Result<
        bool,
        UiError,
    >)
        requires
            old(self).wf(),
        ensures
            final(self).wf(),
            final(self).player_order == old(self).player_order,
            final(self).world.title == old(self).world.title,
            final(self).world.opening_msg == old(self).world.opening_msg,
            final(self).world.dice_max == old(self).world.dice_max,
            final(self).world.area_list == old(self).world.area_list,
            final(self).player_status_table.names@ == old(self).player_status_table.names@,
            (r == Ok::<bool, UiError>(true)) <==> (old(self).ui_status == UiStatus::QuitMenu && key
                == GameKey::Char('Y')),
    {
        let mut flag_loop_break = false;
        match self.ui_status {
            UiStatus::TitleMenu => {
                match self.title_menu(preferences, key) {
                    Ok(()) => {},
                    Err(e) => {
                        return Err(UiError::Game(e));
                    },
                }
            },
            UiStatus::DiceRoll => {
                match self.dice_roll(preferences, key) {
                    Ok(()) => {},
                    Err(e) => {
                        return Err(e);
                    },
                }
            },
            UiStatus::Skip => {
                match self.skip(preferences, key) {
                    Ok(()) => {},
                    Err(e) => {
                        return Err(UiError::Game(e));
                    },
                }
            },
            UiStatus::DiceResult => {
                match self.dice_result(preferences, key) {
                    Ok(()) => {},
                    Err(e) => {
                        return Err(UiError::Game(e));
                    },
                }
            },
            UiStatus::QuitMenu => {
                match self.quit_menu(preferences, key) {
                    Ok(true) => {
                        flag_loop_break = true;
                    },
                    Ok(false) => {},
                    Err(e) => {
                        return Err(UiError::Game(e));
                    },
                }
            },
            UiStatus::GameFinished => {
                match self.game_finished(preferences, key) {
                    Ok(()) => {},
                    Err(e) => {
                        return Err(UiError::Game(e));
                    },
                }
            },
        }
        Ok(flag_loop_break)
    }
}

/// What pressing enter on a non-empty die prompt does, relating the old
/// state `g` to the new state `h`: the digits are parsed, the roll is
/// resolved, and on success the turn is handed to the next eligible player.
pub open spec fn spec_roll_enter(
    g: GameData,
    lang: Language,
    r: Result<(), UiError>,
    h: GameData,
) -> bool {
    let ds = g.text_set.dice_string@;
    match spec_parse_usize(ds) {
        None => {
            &&& h.player_status_table == g.player_status_table
            &&& h.world == g.world
            &&& h.current_player == g.current_player
            &&& h.ui_status == g.ui_status
            &&& h.ui_status_buffer == g.ui_status_buffer
            &&& h.text_set.message@ == spec_prompt_enter(lang)
            &&& h.text_set.main_window == g.text_set.main_window
            &&& h.text_set.dice_string == g.text_set.dice_string
            &&& match r {
                Err(UiError::InvalidDiceInput(s)) => s@ == ds,
                _ => false,
            }
        },
        Some(dice) => {
            let names = g.player_status_table.names_view();
            let sts0 = g.player_status_table.statuses@;
            let ordv = strs_view(g.player_order@);
            let out = spec_dice_roll(g.world, dice as int, g.current_player@, ordv, names, sts0);
            &&& h.world.num_goal_player as int == out.num_goal_player
            &&& h.text_set.dice_string == g.text_set.dice_string
            &&& match out.result {
                RollResult::BadDice => {
                    &&& r is Ok
                    &&& h.player_status_table.statuses@ == sts0
                    &&& h.current_player == g.current_player
                    &&& h.ui_status == UiStatus::DiceResult
                    &&& h.ui_status_buffer == UiStatus::DiceResult
                    &&& h.text_set.main_window@ == spec_dice_out_of_range(lang, dice as int)
                    &&& h.text_set.message@ == spec_prompt_enter(lang)
                },
                RollResult::MissingPlayer(nm) => {
                    &&& h.player_status_table.statuses@ == out.statuses
                    &&& h.current_player == g.current_player
                    &&& h.ui_status == g.ui_status
                    &&& h.ui_status_buffer == g.ui_status_buffer
                    &&& h.text_set.message@ == spec_prompt_enter(lang)
                    &&& h.text_set.main_window == g.text_set.main_window
                    &&& match r {
                        Err(UiError::Game(GameSystemError::NotFoundPlayer(n2))) => n2@ == nm,
                        _ => false,
                    }
                },
                RollResult::BadPosition(p) => {
                    &&& h.player_status_table.statuses@ == out.statuses
                    &&& h.current_player == g.current_player
                    &&& h.ui_status == g.ui_status
                    &&& h.ui_status_buffer == g.ui_status_buffer
                    &&& h.text_set.message@ == spec_prompt_enter(lang)
                    &&& h.text_set.main_window == g.text_set.main_window
                    &&& match r {
                        Err(UiError::Game(GameSystemError::OutOfRangePosition(n2, pp))) => n2@
                            == g.current_player@ && pp as int == p,
                        _ => false,
                    }
                },
                RollResult::Landed(pos2) => {
                    &&& h.text_set.main_window@ == g.world.area_list@[pos2].spec_description(lang)
                    &&& h.text_set.message@ == spec_prompt_enter(lang)
                    &&& ({
                        let k = first_name_index(ordv, g.current_player@);
                        if k < 0 {
                            &&& h.player_status_table.statuses@ == out.statuses
                            &&& h.current_player == g.current_player
                            &&& h.ui_status == g.ui_status
                            &&& h.ui_status_buffer == g.ui_status_buffer
                            &&& match r {
                                Err(UiError::Game(GameSystemError::NotFoundPlayer(n2))) => n2@
                                    == g.current_player@,
                                _ => false,
                            }
                        } else {
                            let cands = ordv.skip(k + 1) + ordv.take(k + 1);
                            match spec_next_player(cands, names, out.statuses) {
                                Ok((Some(p), sts)) => {
                                    &&& r is Ok
                                    &&& h.player_status_table.statuses@ == sts
                                    &&& h.current_player@ == p
                                    &&& h.ui_status == UiStatus::DiceResult
                                    &&& h.ui_status_buffer == UiStatus::DiceResult
                                },
                                Ok((None, sts)) => {
                                    &&& r is Ok
                                    &&& h.player_status_table.statuses@ == sts
                                    &&& h.current_player == g.current_player
                                    &&& h.ui_status == UiStatus::GameFinished
                                    &&& h.ui_status_buffer == UiStatus::GameFinished
                                },
                                Err((missing, sts)) => {
                                    &&& h.player_status_table.statuses@ == sts
                                    &&& h.current_player == g.current_player
                                    &&& h.ui_status == g.ui_status
                                    &&& h.ui_status_buffer == g.ui_status_buffer
                                    &&& match r {
                                        Err(UiError::Game(GameSystemError::NotFoundPlayer(n2))) =>
                                            n2@ == missing,
                                        _ => false,
                                    }
                                },
                            }
                        }
                    })
                },
            }
        },
    }
}

} // verus!
