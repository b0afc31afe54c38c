//! The world: the board, the die bound, and the authoritative
//! turn-resolution operation.

use crate::area::effect_self_only;
use crate::area::spec_effect_parses_to;
use crate::area::AreaEffect;
use crate::area::EffectParseError;
use crate::area::NoEffect;
use crate::area::lemma_execute_list_noop;
use crate::area::lemma_execute_list_preserves_flags;
use crate::area::lemma_execute_list_self_only;
use crate::area::spec_execute_list;
use crate::area::Area;
use crate::error::GameSystemError;
use crate::player_status::first_name_index;
use crate::player_status::lemma_first_name_index;
use crate::player_status::PlayerStatus;
use crate::player_status::PlayerStatusTable;
use crate::preferences::Preferences;
use crate::text::strs_view;
use vstd::prelude::*;

verus! {

/// Whether this status crosses the goal in a goal-check pass: not yet
/// arrived, and on or past the final square.
pub open spec fn arrives(st: PlayerStatus, last: int) -> bool {
    st.order_of_arrival is None && st.position >= last
}

/// The status after being recorded as arrived: parked on the goal square
/// with the given rank.
pub open spec fn arrived_status(st: PlayerStatus, last: int, rank: int) -> PlayerStatus {
    PlayerStatus { position: last as usize, order_of_arrival: Some(rank as u8), ..st }
}

/// How many statuses of `sts` cross the goal in one pass.
pub open spec fn spec_newly_arrived(sts: Seq<PlayerStatus>, last: int) -> int
    decreases sts.len(),
{
    if sts.len() == 0 {
        0
    } else {
        spec_newly_arrived(sts.drop_last(), last) + if arrives(sts.last(), last) {
            1int
        } else {
            0int
        }
    }
}

/// How many statuses of `sts` have an arrival rank.
pub open spec fn spec_arrived_count(sts: Seq<PlayerStatus>) -> int
    decreases sts.len(),
{
    if sts.len() == 0 {
        0
    } else {
        spec_arrived_count(sts.drop_last()) + if sts.last().order_of_arrival is Some {
            1int
        } else {
            0int
        }
    }
}

/// One goal-check pass over the statuses in roster order: every status that
/// crosses the goal is clamped to the final square and ranked, the ranks
/// counting up from `base + 1` in roster order.
pub open spec fn spec_goal_pass(sts: Seq<PlayerStatus>, last: int, base: int) -> Seq<PlayerStatus> {
    Seq::new(
        sts.len(),
        |q: int|
            if arrives(sts[q], last) {
                arrived_status(sts[q], last, base + 1 + spec_newly_arrived(sts.take(q), last))
            } else {
                sts[q]
            },
    )
}

/// The rank a status carries, as a number.
pub open spec fn rank_of(st: PlayerStatus) -> int {
    st.order_of_arrival->0 as int
}

/// Whether some status of `sts` carries exactly the rank `rk`.
pub open spec fn has_rank(sts: Seq<PlayerStatus>, rk: int) -> bool {
    exists|i: int|
        0 <= i < sts.len() && (#[trigger] sts[i]).order_of_arrival is Some && rank_of(sts[i]) == rk
}

/// The arrival-rank bookkeeping invariant: `num` players have arrived, and
/// their ranks are exactly the numbers `1..=num`, each once.
pub open spec fn ranks_consistent(num: int, sts: Seq<PlayerStatus>) -> bool {
    &&& spec_arrived_count(sts) == num
    &&& forall|i: int|
        0 <= i < sts.len() && sts[i].order_of_arrival is Some ==> 1 <= rank_of(#[trigger] sts[i])
            <= num
    &&& forall|i: int, j: int|
        0 <= i < j < sts.len() && (#[trigger] sts[i]).order_of_arrival is Some && (
        #[trigger] sts[j]).order_of_arrival is Some ==> rank_of(sts[i]) != rank_of(sts[j])
    &&& forall|rk: int| 1 <= rk <= num ==> #[trigger] has_rank(sts, rk)
}

/// A roster where nobody has arrived yet satisfies the rank bookkeeping
/// with a counter of zero; constructors establish the invariant this way.
pub proof fn lemma_fresh_statuses_consistent(sts: Seq<PlayerStatus>)
    requires
        forall|i: int| 0 <= i < sts.len() ==> (#[trigger] sts[i]).order_of_arrival is None,
    ensures
        ranks_consistent(0, sts),
    decreases sts.len(),
{
    if sts.len() > 0 {
        assert(forall|i: int|
            0 <= i < sts.drop_last().len() ==> (#[trigger] sts.drop_last()[i]).order_of_arrival
                is None);
        lemma_fresh_statuses_consistent(sts.drop_last());
    }
}

/// Every arrived player is parked on the goal square.
pub open spec fn arrived_on_goal(sts: Seq<PlayerStatus>, last: int) -> bool {
    forall|q: int|
        0 <= q < sts.len() && (#[trigger] sts[q]).order_of_arrival is Some ==> sts[q].position
            == last
}

/// Every player still in play stands strictly before the goal square.
pub open spec fn nonarrived_below_goal(sts: Seq<PlayerStatus>, last: int) -> bool {
    forall|q: int|
        0 <= q < sts.len() && (#[trigger] sts[q]).order_of_arrival is None ==> sts[q].position
            < last
}

pub proof fn lemma_newly_arrived_nonneg(sts: Seq<PlayerStatus>, last: int)
    ensures
        0 <= spec_newly_arrived(sts, last) <= sts.len(),
    decreases sts.len(),
{
    if sts.len() > 0 {
        lemma_newly_arrived_nonneg(sts.drop_last(), last);
    }
}

pub proof fn lemma_arrived_count_bounds(sts: Seq<PlayerStatus>)
    ensures
        0 <= spec_arrived_count(sts) <= sts.len(),
    decreases sts.len(),
{
    if sts.len() > 0 {
        lemma_arrived_count_bounds(sts.drop_last());
    }
}

/// One more element at the end adds its own contribution to the count.
pub proof fn lemma_newly_take_step(sts: Seq<PlayerStatus>, last: int, q: int)
    requires
        0 <= q < sts.len(),
    ensures
        spec_newly_arrived(sts.take(q + 1), last) == spec_newly_arrived(sts.take(q), last) + if arrives(
            sts[q],
            last,
        ) {
            1int
        } else {
            0int
        },
{
    assert(sts.take(q + 1).drop_last() =~= sts.take(q));
    assert(sts.take(q + 1).last() == sts[q]);
}

pub proof fn lemma_newly_take_mono(sts: Seq<PlayerStatus>, last: int, i: int, j: int)
    requires
        0 <= i <= j <= sts.len(),
    ensures
        spec_newly_arrived(sts.take(i), last) <= spec_newly_arrived(sts.take(j), last),
    decreases j - i,
{
    if i < j {
        lemma_newly_take_mono(sts, last, i, j - 1);
        lemma_newly_take_step(sts, last, j - 1);
    }
}

pub proof fn lemma_newly_take_full(sts: Seq<PlayerStatus>, last: int)
    ensures
        spec_newly_arrived(sts.take(sts.len() as int), last) == spec_newly_arrived(sts, last),
{
    assert(sts.take(sts.len() as int) =~= sts);
}

/// Statuses with the same arrival flags count alike.
pub proof fn lemma_arrived_count_congruent(a: Seq<PlayerStatus>, b: Seq<PlayerStatus>)
    requires
        a.len() == b.len(),
        forall|q: int|
            0 <= q < a.len() ==> (#[trigger] a[q]).order_of_arrival == b[q].order_of_arrival,
    ensures
        spec_arrived_count(a) == spec_arrived_count(b),
    decreases a.len(),
{
    if a.len() > 0 {
        lemma_arrived_count_congruent(a.drop_last(), b.drop_last());
    }
}

/// A goal pass turns exactly the crossing statuses into arrived ones.
pub proof fn lemma_goal_pass_count(sts: Seq<PlayerStatus>, last: int, base: int)
    ensures
        spec_arrived_count(spec_goal_pass(sts, last, base)) == spec_arrived_count(sts)
            + spec_newly_arrived(sts, last),
    decreases sts.len(),
{
    if sts.len() > 0 {
        let res = spec_goal_pass(sts, last, base);
        let prev = spec_goal_pass(sts.drop_last(), last, base);
        lemma_goal_pass_count(sts.drop_last(), last, base);
        assert forall|q: int| 0 <= q < prev.len() implies res.drop_last()[q] == prev[q] by {
            assert(sts.drop_last().take(q) =~= sts.take(q));
            assert(sts.drop_last()[q] == sts[q]);
        }
        assert(res.drop_last() =~= prev);
        lemma_newly_take_full(sts.drop_last(), last);
        assert(sts.take(sts.len() - 1) =~= sts.drop_last());
        assert(res.last() == (if arrives(sts.last(), last) {
            arrived_status(sts.last(), last, base + 1 + spec_newly_arrived(sts.drop_last(), last))
        } else {
            sts.last()
        }));
    }
}

/// For every count value below the total, some prefix stops exactly there,
/// at an element that arrives.
pub proof fn lemma_newly_arrived_inverse(sts: Seq<PlayerStatus>, last: int, c: int)
    requires
        0 <= c < spec_newly_arrived(sts, last),
    ensures
        exists|q: int|
            0 <= q < sts.len() && arrives(#[trigger] sts[q], last) && spec_newly_arrived(
                sts.take(q),
                last,
            ) == c,
    decreases sts.len(),
{
    lemma_newly_arrived_nonneg(sts, last);
    let head = sts.drop_last();
    if c < spec_newly_arrived(head, last) {
        lemma_newly_arrived_inverse(head, last, c);
        let q = choose|q: int|
            0 <= q < head.len() && arrives(#[trigger] head[q], last) && spec_newly_arrived(
                head.take(q),
                last,
            ) == c;
        assert(head.take(q) =~= sts.take(q));
        assert(sts[q] == head[q]);
    } else {
        assert(arrives(sts.last(), last));
        assert(c == spec_newly_arrived(head, last));
        assert(sts.take(sts.len() - 1) =~= head);
        assert(arrives(sts[sts.len() - 1], last));
    }
}

/// A goal pass carries the rank bookkeeping forward: if the ranks were
/// exactly `1..=base` before, they are exactly `1..=base + newly` after.
pub proof fn lemma_goal_pass_preserves_ranks(sts: Seq<PlayerStatus>, last: int, base: int)
    requires
        ranks_consistent(base, sts),
        0 <= base,
        base + spec_newly_arrived(sts, last) <= u8::MAX,
    ensures
        ranks_consistent(base + spec_newly_arrived(sts, last), spec_goal_pass(sts, last, base)),
{
    let newly = spec_newly_arrived(sts, last);
    let res = spec_goal_pass(sts, last, base);
    lemma_newly_arrived_nonneg(sts, last);
    lemma_goal_pass_count(sts, last, base);
    assert forall|i: int|
        0 <= i < res.len() && res[i].order_of_arrival is Some implies 1 <= rank_of(#[trigger] res[i])
        <= base + newly by {
        if arrives(sts[i], last) {
            lemma_newly_take_mono(sts, last, 0, i);
            assert(sts.take(0) =~= Seq::<PlayerStatus>::empty());
            lemma_newly_take_step(sts, last, i);
            lemma_newly_take_mono(sts, last, i + 1, sts.len() as int);
            lemma_newly_take_full(sts, last);
            assert(base + 1 + spec_newly_arrived(sts.take(i), last) <= base + newly);
        }
    }
    assert forall|i: int, j: int|
        0 <= i < j < res.len() && res[i].order_of_arrival is Some && res[j].order_of_arrival
            is Some implies rank_of(res[i]) != rank_of(res[j]) by {
        lemma_newly_take_mono(sts, last, 0, i);
        lemma_newly_take_mono(sts, last, 0, j);
        assert(sts.take(0) =~= Seq::<PlayerStatus>::empty());
        lemma_newly_take_full(sts, last);
        if arrives(sts[i], last) {
            lemma_newly_take_step(sts, last, i);
            lemma_newly_take_mono(sts, last, i + 1, j);
            lemma_newly_take_mono(sts, last, i + 1, sts.len() as int);
        }
        if arrives(sts[j], last) {
            lemma_newly_take_step(sts, last, j);
            lemma_newly_take_mono(sts, last, j + 1, sts.len() as int);
        }
    }
    assert forall|rk: int| 1 <= rk <= base + newly implies #[trigger] has_rank(res, rk) by {
        if rk <= base {
            assert(has_rank(sts, rk));
            let i = choose|i: int|
                0 <= i < sts.len() && (#[trigger] sts[i]).order_of_arrival is Some && rank_of(
                    sts[i],
                ) == rk;
            assert(!arrives(sts[i], last));
            assert(res[i] == sts[i]);
        } else {
            lemma_newly_arrived_inverse(sts, last, rk - base - 1);
            let q = choose|q: int|
                0 <= q < sts.len() && arrives(#[trigger] sts[q], last) && spec_newly_arrived(
                    sts.take(q),
                    last,
                ) == rk - base - 1;
            lemma_newly_take_mono(sts, last, 0, q);
            assert(sts.take(0) =~= Seq::<PlayerStatus>::empty());
            assert(res[q] == arrived_status(sts[q], last, rk));
            assert(res[q].order_of_arrival is Some && rank_of(res[q]) == rk);
        }
    }
}

/// After a goal pass nobody still in play stands on or past the goal.
pub proof fn lemma_goal_pass_nonarrived(sts: Seq<PlayerStatus>, last: int, base: int)
    ensures
        nonarrived_below_goal(spec_goal_pass(sts, last, base), last),
{
}

/// A goal pass keeps arrived players parked on the goal square.
pub proof fn lemma_goal_pass_arrived_on_goal(sts: Seq<PlayerStatus>, last: int, base: int)
    requires
        arrived_on_goal(sts, last),
        0 <= last <= usize::MAX,
    ensures
        arrived_on_goal(spec_goal_pass(sts, last, base), last),
{
}

/// The bookkeeping invariant transfers between status lists whose arrival
/// ranks agree entry by entry.
pub proof fn lemma_ranks_consistent_congruent(num: int, a: Seq<PlayerStatus>, b: Seq<PlayerStatus>)
    requires
        ranks_consistent(num, a),
        a.len() == b.len(),
        forall|q: int|
            0 <= q < a.len() ==> (#[trigger] a[q]).order_of_arrival == b[q].order_of_arrival,
    ensures
        ranks_consistent(num, b),
{
    lemma_arrived_count_congruent(a, b);
    assert forall|i: int|
        0 <= i < b.len() && b[i].order_of_arrival is Some implies 1 <= rank_of(#[trigger] b[i])
        <= num by {
        assert(a[i].order_of_arrival == b[i].order_of_arrival);
    }
    assert forall|i: int, j: int|
        0 <= i < j < b.len() && (#[trigger] b[i]).order_of_arrival is Some && (
        #[trigger] b[j]).order_of_arrival is Some implies rank_of(b[i]) != rank_of(b[j]) by {
        assert(a[i].order_of_arrival == b[i].order_of_arrival);
        assert(a[j].order_of_arrival == b[j].order_of_arrival);
    }
    assert forall|rk: int| 1 <= rk <= num implies #[trigger] has_rank(b, rk) by {
        assert(has_rank(a, rk));
        let i = choose|i: int|
            0 <= i < a.len() && (#[trigger] a[i]).order_of_arrival is Some && rank_of(a[i]) == rk;
        assert(b[i].order_of_arrival is Some && rank_of(b[i]) == rk);
    }
}

/// How a resolved roll ends, beyond its changes to the statuses.
pub enum RollResult {
    /// The die value lies outside `1..=dice_max`; nothing changed.
    BadDice,
    /// A scanned name was missing from the table; carries it.
    MissingPlayer(Seq<char>),
    /// The current player's position does not index into the board; carries
    /// the position.
    BadPosition(int),
    /// Success; carries the index of the square whose description is
    /// returned.
    Landed(int),
}

/// The complete outcome of resolving one die roll: the new arrival counter,
/// the new statuses, and how the roll ended.
pub struct RollOutcome {
    pub num_goal_player: int,
    pub statuses: Seq<PlayerStatus>,
    pub result: RollResult,
}

/// What `dice_roll` does, step by step: validate the die value, move the
/// current player, run a goal-check pass, fire the landed square's effects,
/// run a second goal-check pass, and look the player's square up again.
pub open spec fn spec_dice_roll(
    w: World,
    dice: int,
    current: Seq<char>,
    ordv: Seq<Seq<char>>,
    names: Seq<Seq<char>>,
    sts0: Seq<PlayerStatus>,
) -> RollOutcome {
    let lasti = w.last_index();
    let i = first_name_index(names, current);
    if dice < 1 || w.dice_max < dice {
        RollOutcome {
            num_goal_player: w.num_goal_player as int,
            statuses: sts0,
            result: RollResult::BadDice,
        }
    } else if i < 0 {
        RollOutcome {
            num_goal_player: w.num_goal_player as int,
            statuses: sts0,
            result: RollResult::MissingPlayer(current),
        }
    } else {
        let sts1 = sts0.update(i, sts0[i].spec_go_forward(dice));
        let base2 = w.num_goal_player + spec_newly_arrived(sts1, lasti);
        let sts2 = spec_goal_pass(sts1, lasti, w.num_goal_player as int);
        let pos = sts2[i].position as int;
        if pos >= w.area_list@.len() {
            RollOutcome {
                num_goal_player: base2,
                statuses: sts2,
                result: RollResult::BadPosition(pos),
            }
        } else {
            let area = w.area_list@[pos];
            match spec_execute_list(area.effect_list@, current, ordv, names, sts2) {
                Err((nm, sts3)) => RollOutcome {
                    num_goal_player: base2,
                    statuses: sts3,
                    result: RollResult::MissingPlayer(nm),
                },
                Ok(sts3) => {
                    let sts4 = spec_goal_pass(sts3, lasti, base2);
                    let pos2 = sts4[i].position as int;
                    RollOutcome {
                        num_goal_player: base2 + spec_newly_arrived(sts3, lasti),
                        statuses: sts4,
                        result: if pos2 >= w.area_list@.len() {
                            RollResult::BadPosition(pos2)
                        } else {
                            RollResult::Landed(pos2)
                        },
                    }
                },
            }
        }
    }
}

/// The world: the board, the die bound, and the count of players who have
/// reached the goal so far.
#[derive(Debug)]
pub struct World {
    pub title: String,
    pub opening_msg: String,
    pub dice_max: usize,
    pub area_list: Vec<Area>,
    pub num_goal_player: u8,
}

impl World {
    /// Well-formed: the board holds at least the start and the goal square.
    pub open spec fn wf(self) -> bool {
        self.area_list@.len() >= 2
    }

    /// The index of the goal square.
    pub open spec fn last_index(self) -> int {
        self.area_list@.len() - 1
    }

    pub fn new(title: String, opening_msg: String, dice_max: usize, area_list: Vec<Area>) -> (r:
        Self)
        requires
            area_list@.len() >= 2,
        ensures
            r.title == title,
            r.opening_msg == opening_msg,
            r.dice_max == dice_max,
            r.area_list == area_list,
            r.num_goal_player == 0,
            r.wf(),
    {
        Self { title, opening_msg, dice_max, area_list, num_goal_player: 0 }
    }

    pub fn title(&self) -> (r: &str)
        ensures
            r@ == self.title@,
    {
        self.title.as_str()
    }

    pub fn opening_msg(&self) -> (r: &str)
        ensures
            r@ == self.opening_msg@,
    {
        self.opening_msg.as_str()
    }

    pub fn dice_max(&self) -> (r: usize)
        ensures
            r == self.dice_max,
    {
        self.dice_max
    }

    pub fn area_list(&self) -> (r: &Vec<Area>)
        ensures
            r@ == self.area_list@,
    {
        &self.area_list
    }

    /// The description of the start square.
    pub fn start_description(&self, preferences: &Preferences) -> (r: String)
        requires
            self.wf(),
        ensures
            r@ == self.area_list@[0].spec_description(preferences.language),
    {
        self.area_list[0].area_description(preferences)
    }

    /// One goal-check pass (the bookkeeping step of a roll): every player
    /// not yet arrived whose position reaches the final square is clamped
    /// there and ranked, ranks counting up in roster order from the arrivals
    /// so far.
    fn check_goal_player(&mut self, player_status_table: &mut PlayerStatusTable)
        requires
            old(self).wf(),
            old(player_status_table).wf(),
            old(self).num_goal_player + spec_newly_arrived(
                old(player_status_table).statuses@,
                old(self).last_index(),
            ) <= u8::MAX,
        ensures
            final(self).title == old(self).title,
            final(self).opening_msg == old(self).opening_msg,
            final(self).dice_max == old(self).dice_max,
            final(self).area_list == old(self).area_list,
            final(self).num_goal_player as int == old(self).num_goal_player
                + spec_newly_arrived(old(player_status_table).statuses@, old(self).last_index()),
            final(player_status_table).wf(),
            final(player_status_table).names@ == old(player_status_table).names@,
            final(player_status_table).statuses@ == spec_goal_pass(
                old(player_status_table).statuses@,
                old(self).last_index(),
                old(self).num_goal_player as int,
            ),
    {
        let ghost sts0 = old(player_status_table).statuses@;
        let ghost lasti = old(self).last_index();
        let ghost base = old(self).num_goal_player as int;
        let last = self.area_list.len() - 1;
        let len = player_status_table.len();
        let mut num_goal_player: u8 = 0;
        let mut q: usize = 0;
        proof {
            assert(sts0.take(0) =~= Seq::<PlayerStatus>::empty());
            lemma_newly_arrived_nonneg(sts0, lasti);
        }
        while q < len
            invariant
                q <= len,
                len == sts0.len(),
                *self == *old(self),
                old(self).wf(),
                last as int == lasti,
                lasti == old(self).last_index(),
                base == old(self).num_goal_player as int,
                base + spec_newly_arrived(sts0, lasti) <= u8::MAX,
                sts0 == old(player_status_table).statuses@,
                player_status_table.wf(),
                player_status_table.names@ == old(player_status_table).names@,
                player_status_table.statuses@.len() == len,
                num_goal_player as int == spec_newly_arrived(sts0.take(q as int), lasti),
                forall|p: int|
                    0 <= p < q ==> #[trigger] player_status_table.statuses@[p] == spec_goal_pass(
                        sts0,
                        lasti,
                        base,
                    )[p],
                forall|p: int|
                    q <= p < len ==> #[trigger] player_status_table.statuses@[p] == sts0[p],
            decreases len - q,
        {
            let st = *player_status_table.status_at(q);
            proof {
                lemma_newly_take_step(sts0, lasti, q as int);
            }
            if st.order_of_arrival.is_none() && st.position >= last {
                proof {
                    lemma_newly_take_mono(sts0, lasti, q + 1, len as int);
                    lemma_newly_take_full(sts0, lasti);
                }
                let rank = self.num_goal_player + num_goal_player + 1;
                let mut st2 = st;
                st2.set_order_of_arrival(rank);
                st2.set_position(last);
                player_status_table.set_status_at(q, st2);
                num_goal_player = num_goal_player + 1;
                proof {
                    assert(arrives(sts0[q as int], lasti));
                    assert(player_status_table.statuses@[q as int] == spec_goal_pass(
                        sts0,
                        lasti,
                        base,
                    )[q as int]);
                }
            }
            q = q + 1;
        }
        proof {
            lemma_newly_take_full(sts0, lasti);
            assert(player_status_table.statuses@ =~= spec_goal_pass(sts0, lasti, base));
        }
        self.num_goal_player = self.num_goal_player + num_goal_player;
    }

    /// Resolves one die roll for `current_player`: validates the die value,
    /// moves the player, runs a goal-check pass, fires the effects of the
    /// landed square, runs a second goal-check pass, and returns the
    /// description of the square the player then stands on.  Errors leave
    /// everything already done in place; an out-of-range die value changes
    /// nothing at all and reports the offending value.
    ///
    /// Beyond the step-by-step outcome, the contract keeps three guarantees:
    /// the assigned arrival ranks always remain exactly `1..=num_goal_player`
    /// with no gap or repeat; after a successful roll every player still in
    /// play stands strictly before the goal square; and on a board whose
    /// squares move only the landing player, arrived players stay parked on
    /// the goal square.
    pub fn dice_roll(
        &mut self,
        preferences: &Preferences,
        dice: usize,
        current_player: &str,
        player_order: &Vec<String>,
        player_status_table: &mut PlayerStatusTable,
    ) -> (r: Result<String, GameSystemError>)
        requires
            old(self).wf(),
            old(player_status_table).wf(),
            old(player_status_table).spec_len() <= u8::MAX,
            ranks_consistent(
                old(self).num_goal_player as int,
                old(player_status_table).statuses@,
            ),
        ensures
            final(self).title == old(self).title,
            final(self).opening_msg == old(self).opening_msg,
            final(self).dice_max == old(self).dice_max,
            final(self).area_list == old(self).area_list,
            final(player_status_table).wf(),
            final(player_status_table).names@ == old(player_status_table).names@,
            ranks_consistent(
                final(self).num_goal_player as int,
                final(player_status_table).statuses@,
            ),
            r is Ok ==> nonarrived_below_goal(
                final(player_status_table).statuses@,
                old(self).last_index(),
            ),
            board_effects_benign(*old(self)) && arrived_on_goal(
                old(player_status_table).statuses@,
                old(self).last_index(),
            ) && r is Ok ==> arrived_on_goal(
                final(player_status_table).statuses@,
                old(self).last_index(),
            ),
            ({
                let out = spec_dice_roll(
                    *old(self),
                    dice as int,
                    current_player@,
                    strs_view(player_order@),
                    old(player_status_table).names_view(),
                    old(player_status_table).statuses@,
                );
                &&& final(self).num_goal_player as int == out.num_goal_player
                &&& final(player_status_table).statuses@ == out.statuses
                &&& match (r, out.result) {
                    (Err(GameSystemError::OutOfRangeDice(d)), RollResult::BadDice) => d == dice,
                    (Err(GameSystemError::NotFoundPlayer(nm)), RollResult::MissingPlayer(m)) => nm@
                        == m,
                    (
                        Err(GameSystemError::OutOfRangePosition(nm, p)),
                        RollResult::BadPosition(pp),
                    ) => nm@ == current_player@ && p as int == pp,
                    (Ok(desc), RollResult::Landed(pos2)) => desc@ == old(self).area_list@[
                        pos2
                    ].spec_description(preferences.language),
                    _ => false,
                }
            }),
    {
        let ghost w = *old(self);
        let ghost t0 = *old(player_status_table);
        let ghost names = t0.names_view();
        let ghost sts0 = t0.statuses@;
        let ghost lasti = w.last_index();
        let ghost ordv = strs_view(player_order@);
        if dice < 1 || self.dice_max < dice {
            return Err(GameSystemError::OutOfRangeDice(dice));
        }
        let i = match player_status_table.index_of(current_player) {
            Some(i) => i,
            None => {
                return Err(GameSystemError::NotFoundPlayer(current_player.to_owned()));
            },
        };
        proof {
            lemma_first_name_index(names, current_player@);
        }
        let mut st = *player_status_table.status_at(i);
        st.go_forward(dice);
        player_status_table.set_status_at(i, st);
        let ghost sts1 = player_status_table.statuses@;
        let ghost base = w.num_goal_player as int;
        proof {
            assert(sts1 == sts0.update(i as int, sts0[i as int].spec_go_forward(dice as int)));
            assert forall|q: int|
                0 <= q < sts0.len() implies (#[trigger] sts0[q]).order_of_arrival
                == sts1[q].order_of_arrival by {}
            lemma_ranks_consistent_congruent(base, sts0, sts1);
            lemma_goal_pass_count(sts1, lasti, base);
            lemma_arrived_count_bounds(spec_goal_pass(sts1, lasti, base));
            lemma_newly_arrived_nonneg(sts1, lasti);
        }
        self.check_goal_player(player_status_table);
        let ghost sts2 = player_status_table.statuses@;
        let ghost base2 = self.num_goal_player as int;
        proof {
            lemma_goal_pass_preserves_ranks(sts1, lasti, base);
        }
        let pos = player_status_table.status_at(i).position();
        if pos >= self.area_list.len() {
            return Err(GameSystemError::OutOfRangePosition(current_player.to_owned(), pos));
        }
        proof {
            assert(player_status_table.names_view() == names);
        }
        let eff_result = self.area_list[pos].execute(
            current_player,
            player_order,
            player_status_table,
        );
        let ghost sts3 = player_status_table.statuses@;
        let ghost effects = w.area_list@[pos as int].effect_list@;
        proof {
            lemma_execute_list_preserves_flags(effects, current_player@, ordv, names, sts2);
            lemma_ranks_consistent_congruent(base2, sts2, sts3);
        }
        match eff_result {
            Err(e) => {
                return Err(e);
            },
            Ok(()) => {},
        }
        proof {
            lemma_goal_pass_count(sts3, lasti, base2);
            lemma_arrived_count_bounds(spec_goal_pass(sts3, lasti, base2));
            lemma_newly_arrived_nonneg(sts3, lasti);
        }
        self.check_goal_player(player_status_table);
        let ghost sts4 = player_status_table.statuses@;
        proof {
            lemma_goal_pass_preserves_ranks(sts3, lasti, base2);
            lemma_goal_pass_nonarrived(sts3, lasti, base2);
            if board_effects_benign(w) && arrived_on_goal(sts0, lasti) {
                assert(sts0[i as int].order_of_arrival is None) by {
                    if sts0[i as int].order_of_arrival is Some {
                        assert(sts0[i as int].position == lasti);
                        assert(sts1[i as int] == sts0[i as int].spec_go_forward(dice as int));
                        assert(sts1[i as int].order_of_arrival is Some);
                        assert(!arrives(sts1[i as int], lasti));
                        assert(sts2[i as int] == sts1[i as int]);
                        assert(lasti < usize::MAX);
                        assert(sts1[i as int].position > lasti);
                        assert(pos > lasti);
                    }
                }
                assert forall|q: int|
                    0 <= q < sts1.len() && (#[trigger] sts1[q]).order_of_arrival
                        is Some implies sts1[q].position == lasti by {
                    assert(sts0[q].order_of_arrival == sts1[q].order_of_arrival);
                }
                lemma_goal_pass_arrived_on_goal(sts1, lasti, base);
                if arrives(sts1[i as int], lasti) {
                    assert(sts2[i as int].position == lasti);
                    assert(pos == lasti);
                    assert forall|k: int|
                        0 <= k < effects.len() implies #[trigger] effects[k] is NoEffect by {}
                    lemma_execute_list_noop(effects, current_player@, ordv, names, sts2);
                    assert(sts3 == sts2);
                } else {
                    assert(sts2[i as int] == sts1[i as int]);
                    assert(sts2[i as int].order_of_arrival is None);
                    assert forall|k: int|
                        0 <= k < effects.len() implies effect_self_only(
                        #[trigger] effects[k],
                    ) by {}
                    lemma_execute_list_self_only(effects, current_player@, ordv, names, sts2);
                    assert forall|q: int|
                        0 <= q < sts3.len() && (#[trigger] sts3[q]).order_of_arrival
                            is Some implies sts3[q].position == lasti by {
                        assert(sts2[q].order_of_arrival == sts3[q].order_of_arrival);
                        assert(q != i as int);
                        assert(sts3[q] == sts2[q]);
                    }
                }
                lemma_goal_pass_arrived_on_goal(sts3, lasti, base2);
            }
        }
        let pos2 = player_status_table.status_at(i).position();
        if pos2 >= self.area_list.len() {
            return Err(GameSystemError::OutOfRangePosition(current_player.to_owned(), pos2));
        }
        Ok(self.area_list[pos2].area_description(preferences))
    }
}

/// One configured square, as the board definition describes it: narrative
/// text and the effect specification strings, or none at all.
#[derive(Clone, Debug)]
pub struct AreaRecord {
    pub description: String,
    pub effects: Option<Vec<String>>,
}

/// Whether an effect specification string parses successfully.
pub open spec fn spec_parses_ok(s: Seq<char>) -> bool {
    exists|e: AreaEffect| spec_effect_parses_to(s, Ok(e))
}

/// The single no-op effect list of the synthetic start and goal squares.
pub open spec fn noop_effects() -> Seq<AreaEffect> {
    seq![AreaEffect::NoEffect(NoEffect {  })]
}

/// Builds a world from a board definition: a synthetic start square, the
/// configured squares in order, and a synthetic goal square.  A record
/// without effect specifications gets the single no-op effect.  The first
/// specification that fails to parse aborts the build with its error.
pub fn world_from_records(
    title: String,
    opening_msg: String,
    start_description: String,
    goal_description: String,
    dice_max: usize,
    areas: &Vec<AreaRecord>,
) -> (r: Result<World, EffectParseError>)
    ensures
        match r {
            Ok(w) => {
                &&& w.title == title
                &&& w.opening_msg == opening_msg
                &&& w.dice_max == dice_max
                &&& w.num_goal_player == 0
                &&& w.wf()
                &&& w.area_list@.len() == areas@.len() + 2
                &&& w.area_list@[0].description == start_description
                &&& w.area_list@[0].effect_list@ == noop_effects()
                &&& w.area_list@[w.last_index()].description == goal_description
                &&& w.area_list@[w.last_index()].effect_list@ == noop_effects()
                &&& forall|a: int|
                    0 <= a < areas@.len() ==> {
                        let rec = #[trigger] areas@[a];
                        &&& w.area_list@[a + 1].description == rec.description
                        &&& match rec.effects {
                            None => w.area_list@[a + 1].effect_list@ == noop_effects(),
                            Some(specs) => w.area_list@[a + 1].effect_list@.len() == specs@.len()
                                && forall|k: int|
                                0 <= k < specs@.len() ==> spec_effect_parses_to(
                                    (#[trigger] specs@[k])@,
                                    Ok(w.area_list@[a + 1].effect_list@[k]),
                                ),
                        }
                    }
            },
            Err(e) => exists|a: int, k: int|
                {
                    &&& 0 <= a < areas@.len()
                    &&& (#[trigger] areas@[a]).effects is Some
                    &&& 0 <= k < areas@[a].effects->0@.len()
                    &&& spec_effect_parses_to(
                        (#[trigger] areas@[a].effects->0@[k])@,
                        Err(e),
                    )
                    &&& forall|a2: int, k2: int|
                        0 <= a2 < areas@.len() && (#[trigger] areas@[a2]).effects is Some && 0
                            <= k2 < areas@[a2].effects->0@.len() && (a2 < a || (a2 == a && k2 < k))
                            ==> spec_parses_ok((#[trigger] areas@[a2].effects->0@[k2])@)
                },
        },
{
    let mut area_list: Vec<Area> = Vec::new();
    let mut start_effects: Vec<AreaEffect> = Vec::new();
    start_effects.push(AreaEffect::NoEffect(NoEffect::new()));
    proof {
        assert(start_effects@ =~= noop_effects());
    }
    area_list.push(Area::new(start_description, start_effects));
    let n = areas.len();
    let mut a: usize = 0;
    while a < n
        invariant
            n == areas@.len(),
            a <= n,
            area_list@.len() == a + 1,
            area_list@[0].effect_list@ == noop_effects(),
            forall|p: int|
                0 <= p < a ==> {
                    let rec = #[trigger] areas@[p];
                    &&& area_list@[p + 1].description == rec.description
                    &&& match rec.effects {
                        None => area_list@[p + 1].effect_list@ == noop_effects(),
                        Some(specs) => area_list@[p + 1].effect_list@.len() == specs@.len()
                            && forall|k: int|
                            0 <= k < specs@.len() ==> spec_effect_parses_to(
                                (#[trigger] specs@[k])@,
                                Ok(area_list@[p + 1].effect_list@[k]),
                            ),
                    }
                },
            forall|a2: int, k2: int|
                0 <= a2 < a && (#[trigger] areas@[a2]).effects is Some && 0 <= k2 < areas@[
                    a2
                ].effects->0@.len() ==> spec_parses_ok((#[trigger] areas@[a2].effects->0@[k2])@),
            area_list@[0].description == start_description,
        decreases n - a,
    {
        let rec = &areas[a];
        let mut effs: Vec<AreaEffect> = Vec::new();
        match &rec.effects {
            Some(specs) => {
                let m = specs.len();
                let mut k: usize = 0;
                while k < m
                    invariant
                        m == specs@.len(),
                        k <= m,
                        effs@.len() == k,
                        specs@ == areas@[a as int].effects->0@,
                        a < n,
                        n == areas@.len(),
                        areas@[a as int].effects is Some,
                        forall|k2: int|
                            0 <= k2 < k ==> spec_effect_parses_to(
                                (#[trigger] specs@[k2])@,
                                Ok(effs@[k2]),
                            ),
                        forall|a2: int, k2: int|
                            0 <= a2 < a && (#[trigger] areas@[a2]).effects is Some && 0 <= k2
                                < areas@[a2].effects->0@.len() ==> spec_parses_ok(
                                (#[trigger] areas@[a2].effects->0@[k2])@,
                            ),
                    decreases m - k,
                {
                    match AreaEffect::from_str(specs[k].as_str()) {
                        Ok(e) => {
                            effs.push(e);
                        },
                        Err(e) => {
                            proof {
                                assert(spec_effect_parses_to(specs@[k as int]@, Err(e)));
                                assert forall|k2: int| 0 <= k2 < k implies spec_parses_ok(
                                    (#[trigger] specs@[k2])@,
                                ) by {
                                    assert(spec_effect_parses_to(specs@[k2]@, Ok(effs@[k2])));
                                }
                            }
                            return Err(e);
                        },
                    }
                    k = k + 1;
                }
            },
            None => {
                effs.push(AreaEffect::NoEffect(NoEffect::new()));
                proof {
                    assert(effs@ =~= noop_effects());
                }
            },
        }
        proof {
            if areas@[a as int].effects is Some {
                let specs = areas@[a as int].effects->0;
                assert forall|k2: int| 0 <= k2 < specs@.len() implies spec_parses_ok(
                    (#[trigger] specs@[k2])@,
                ) by {
                    assert(spec_effect_parses_to(specs@[k2]@, Ok(effs@[k2])));
                }
            }
        }
        area_list.push(Area::new(rec.description.clone(), effs));
        a = a + 1;
    }
    let mut goal_effects: Vec<AreaEffect> = Vec::new();
    goal_effects.push(AreaEffect::NoEffect(NoEffect::new()));
    proof {
        assert(goal_effects@ =~= noop_effects());
    }
    area_list.push(Area::new(goal_description, goal_effects));
    Ok(World::new(title, opening_msg, dice_max, area_list))
}

/// A board whose squares move only the landing player, and whose goal
/// square does nothing at all.
pub open spec fn board_effects_benign(w: World) -> bool {
    &&& forall|a: int, k: int|
        0 <= a < w.area_list@.len() && 0 <= k < w.area_list@[a].effect_list@.len()
            ==> effect_self_only(#[trigger] w.area_list@[a].effect_list@[k])
    &&& forall|k: int|
        0 <= k < w.area_list@[w.last_index()].effect_list@.len() ==> #[trigger] w.area_list@[
            w.last_index()
        ].effect_list@[k] is NoEffect
}

} // verus!
