//! Per-player mutable state: board position, pending skip count, arrival
//! rank; the roster-ordered status table; and the turn-order resolver.

use crate::error::GameSystemError;
use crate::text::str_eq;
use crate::text::strs_view;
use vstd::prelude::*;

verus! {

/// State of one player.
///
/// `position` indexes into the board's area list, `num_skip` counts turns the
/// player still has to forfeit, and `order_of_arrival` is the 1-based rank in
/// which the player reached the goal (`None` while still in play).
#[derive(Clone, Copy, Debug)]
pub struct PlayerStatus {
    pub position: usize,
    pub num_skip: u8,
    pub order_of_arrival: Option<u8>,
}

/// Addition on positions that stops at the largest representable value.
pub open spec fn sat_add_usize(a: int, b: int) -> int {
    if a + b > usize::MAX {
        usize::MAX as int
    } else {
        a + b
    }
}

/// Subtraction on positions that stops at zero.
pub open spec fn sat_sub(a: int, b: int) -> int {
    if a - b < 0 {
        0
    } else {
        a - b
    }
}

/// Saturating addition on the skip counter.
pub open spec fn sat_add_u8(a: int, b: int) -> int {
    if a + b > u8::MAX {
        u8::MAX as int
    } else {
        a + b
    }
}

impl PlayerStatus {
    /// The status after moving `n` squares forward.
    pub open spec fn spec_go_forward(self, n: int) -> PlayerStatus {
        PlayerStatus { position: sat_add_usize(self.position as int, n) as usize, ..self }
    }

    /// The status after moving `n` squares backward.
    pub open spec fn spec_go_backward(self, n: int) -> PlayerStatus {
        PlayerStatus { position: sat_sub(self.position as int, n) as usize, ..self }
    }

    /// The status with the skip counter raised by `x`.
    pub open spec fn spec_add_num_skip(self, x: int) -> PlayerStatus {
        PlayerStatus { num_skip: sat_add_u8(self.num_skip as int, x) as u8, ..self }
    }

    /// The status with the skip counter lowered by `x`.
    pub open spec fn spec_sub_num_skip(self, x: int) -> PlayerStatus {
        PlayerStatus { num_skip: sat_sub(self.num_skip as int, x) as u8, ..self }
    }

    pub fn position(&self) -> (r: usize)
        ensures
            r == self.position,
    {
        self.position
    }

    pub fn set_position(&mut self, position: usize)
        ensures
            *final(self) == (PlayerStatus { position, ..*old(self) }),
    {
        self.position = position;
    }

    pub fn num_skip(&self) -> (r: u8)
        ensures
            r == self.num_skip,
    {
        self.num_skip
    }

    pub fn add_num_skip(&mut self, x: u8)
        ensures
            *final(self) == old(self).spec_add_num_skip(x as int),
    {
        self.num_skip = self.num_skip.saturating_add(x);
    }

    pub fn sub_num_skip(&mut self, x: u8)
        ensures
            *final(self) == old(self).spec_sub_num_skip(x as int),
    {
        self.num_skip = self.num_skip.saturating_sub(x);
    }

    pub fn order_of_arrival(&self) -> (r: Option<u8>)
        ensures
            r == self.order_of_arrival,
    {
        self.order_of_arrival
    }

    /// Records the arrival rank.  Callers guarantee that the rank is still
    /// unset; the goal-check pass of the world enforces that.
    pub fn set_order_of_arrival(&mut self, order_of_arrival: u8)
        ensures
            *final(self) == (PlayerStatus {
                order_of_arrival: Some(order_of_arrival),
                ..*old(self)
            }),
    {
        self.order_of_arrival = Some(order_of_arrival);
    }

    /// Moves forward by `n` squares; the position saturates instead of
    /// overflowing.
    pub fn go_forward(&mut self, n: usize)
        ensures
            *final(self) == old(self).spec_go_forward(n as int),
            final(self).position >= old(self).position,
    {
        self.position = self.position.saturating_add(n);
    }

    /// Moves backward by `n` squares; the position saturates at zero instead
    /// of underflowing.
    pub fn go_backward(&mut self, n: usize)
        ensures
            *final(self) == old(self).spec_go_backward(n as int),
            final(self).position <= old(self).position,
    {
        self.position = self.position.saturating_sub(n);
    }
}

impl Default for PlayerStatus {
    /// The state of a player at game start: on the start square, no pending
    /// skips, not yet arrived.
    fn default() -> (r: Self)
        ensures
            r == (PlayerStatus { position: 0, num_skip: 0, order_of_arrival: None }),
    {
        Self { position: 0, num_skip: 0, order_of_arrival: None }
    }
}

/// Moving forward by `n` and then backward by `n` restores the original
/// status exactly, as long as the forward move does not saturate.
pub proof fn lemma_go_forward_backward(p: PlayerStatus, n: usize)
    requires
        p.position + n <= usize::MAX,
    ensures
        p.spec_go_forward(n as int).spec_go_backward(n as int) == p,
{
}

/// The first index at which `name` occurs in `names`, or -1.
pub open spec fn first_name_index(names: Seq<Seq<char>>, name: Seq<char>) -> int
    decreases names.len(),
{
    if names.len() == 0 {
        -1
    } else if names[0] == name {
        0
    } else {
        let r = first_name_index(names.drop_first(), name);
        if r < 0 {
            -1
        } else {
            r + 1
        }
    }
}

pub proof fn lemma_first_name_index(names: Seq<Seq<char>>, name: Seq<char>)
    ensures
        first_name_index(names, name) >= 0 ==> first_name_index(names, name) < names.len()
            && names[first_name_index(names, name)] == name,
        first_name_index(names, name) >= 0 ==> forall|j: int|
            0 <= j < first_name_index(names, name) ==> names[j] != name,
        first_name_index(names, name) < 0 ==> forall|j: int|
            0 <= j < names.len() ==> names[j] != name,
    decreases names.len(),
{
    if names.len() == 0 {
    } else if names[0] == name {
    } else {
        let t = names.drop_first();
        lemma_first_name_index(t, name);
        let r = first_name_index(t, name);
        if r < 0 {
            assert forall|j: int| 0 <= j < names.len() implies names[j] != name by {
                if j > 0 {
                    assert(t[j - 1] == names[j]);
                }
            }
        } else {
            assert(names[r + 1] == t[r]);
            assert forall|j: int| 0 <= j < r + 1 implies names[j] != name by {
                if j > 0 {
                    assert(t[j - 1] == names[j]);
                }
            }
        }
    }
}

/// The status table: an insertion-ordered mapping from player name to
/// status.  The insertion order is the roster order, which also serves as
/// the deterministic tie-break whenever several players are processed in one
/// pass.
#[derive(Debug)]
pub struct PlayerStatusTable {
    pub names: Vec<String>,
    pub statuses: Vec<PlayerStatus>,
}

impl PlayerStatusTable {
    /// The names of the table, in roster order, as character sequences.
    pub open spec fn names_view(self) -> Seq<Seq<char>> {
        strs_view(self.names@)
    }

    /// Well-formed: one status per name, and no name twice.
    pub open spec fn wf(self) -> bool {
        &&& self.names@.len() == self.statuses@.len()
        &&& forall|i: int, j: int|
            0 <= i < j < self.names@.len() ==> self.names_view()[i] != self.names_view()[j]
    }

    pub open spec fn spec_len(self) -> nat {
        self.names@.len()
    }

    /// Whether some player bears this name.
    pub open spec fn contains_name(self, name: Seq<char>) -> bool {
        first_name_index(self.names_view(), name) >= 0
    }

    /// The roster index of the player with this name.
    pub open spec fn spec_index_of(self, name: Seq<char>) -> int {
        first_name_index(self.names_view(), name)
    }

    /// The status of the player with this name.
    pub open spec fn status_of(self, name: Seq<char>) -> PlayerStatus {
        self.statuses@[self.spec_index_of(name)]
    }

    pub fn new() -> (r: Self)
        ensures
            r.wf(),
            r.spec_len() == 0,
    {
        let r = PlayerStatusTable { names: Vec::new(), statuses: Vec::new() };
        proof {
            assert(r.names_view() =~= Seq::<Seq<char>>::empty());
        }
        r
    }

    pub fn len(&self) -> (r: usize)
        ensures
            r == self.spec_len(),
    {
        self.names.len()
    }

    /// Finds the roster index of `name`, scanning in roster order.
    pub fn index_of(&self, name: &str) -> (r: Option<usize>)
        ensures
            match r {
                Some(i) => self.contains_name(name@) && self.spec_index_of(name@) == i as int,
                None => !self.contains_name(name@),
            },
    {
        proof {
            lemma_first_name_index(self.names_view(), name@);
        }
        let n = self.names.len();
        let mut i: usize = 0;
        while i < n
            invariant
                n == self.names@.len(),
                i <= n,
                forall|j: int| 0 <= j < i ==> self.names_view()[j] != name@,
            decreases n - i,
        {
            if str_eq(self.names[i].as_str(), name) {
                proof {
                    let names = self.names_view();
                    assert(names[i as int] == name@);
                    lemma_first_name_index(names, name@);
                    let f = first_name_index(names, name@);
                    assert(f >= 0);
                    if f < i {
                        assert(names[f] != name@);
                    }
                    if f > i {
                        assert(names[i as int] != name@);
                    }
                }
                return Some(i);
            }
            proof {
                assert(self.names_view()[i as int] == self.names@[i as int]@);
            }
            i = i + 1;
        }
        None
    }

    pub fn contains_key(&self, name: &str) -> (r: bool)
        ensures
            r == self.contains_name(name@),
    {
        self.index_of(name).is_some()
    }

    /// Looks a player's status up by name.
    pub fn get(&self, name: &str) -> (r: Option<&PlayerStatus>)
        requires
            self.wf(),
        ensures
            match r {
                Some(st) => self.contains_name(name@) && *st == self.status_of(name@),
                None => !self.contains_name(name@),
            },
    {
        match self.index_of(name) {
            Some(i) => {
                proof {
                    lemma_first_name_index(self.names_view(), name@);
                }
                Some(&self.statuses[i])
            },
            None => None,
        }
    }

    pub fn name_at(&self, i: usize) -> (r: &String)
        requires
            i < self.spec_len(),
        ensures
            r@ == self.names_view()[i as int],
    {
        &self.names[i]
    }

    pub fn status_at(&self, i: usize) -> (r: &PlayerStatus)
        requires
            self.wf(),
            i < self.spec_len(),
        ensures
            *r == self.statuses@[i as int],
    {
        &self.statuses[i]
    }

    /// Overwrites the status at roster index `i`.
    pub fn set_status_at(&mut self, i: usize, status: PlayerStatus)
        requires
            old(self).wf(),
            i < old(self).spec_len(),
        ensures
            final(self).names@ == old(self).names@,
            final(self).statuses@ == old(self).statuses@.update(i as int, status),
            final(self).wf(),
    {
        self.statuses[i] = status;
        proof {
            assert(self.statuses@.len() == old(self).statuses@.len());
            assert(self.names_view() == old(self).names_view());
        }
    }

    /// Appends a player that is not yet in the table.
    pub fn insert_new(&mut self, name: String, status: PlayerStatus)
        requires
            old(self).wf(),
            !old(self).contains_name(name@),
        ensures
            final(self).names@ == old(self).names@.push(name),
            final(self).statuses@ == old(self).statuses@.push(status),
            final(self).wf(),
    {
        proof {
            lemma_first_name_index(self.names_view(), name@);
        }
        let ghost prev = *self;
        self.names.push(name);
        self.statuses.push(status);
        proof {
            assert(self.names_view() =~= prev.names_view().push(name@));
            assert forall|i: int, j: int|
                0 <= i < j < self.names@.len() implies self.names_view()[i]
                != self.names_view()[j] by {
                if j < prev.names@.len() {
                } else {
                    assert(self.names_view()[j] == name@);
                }
            }
        }
    }
}

/// Whether the name at index `j` already occurred earlier in `names`.
pub open spec fn dup_in_prefix(names: Seq<Seq<char>>, j: int) -> bool {
    exists|i: int| 0 <= i < j && names[i] == names[j]
}

/// Whether some name occurs twice in `names`.
pub open spec fn has_duplicate(names: Seq<Seq<char>>) -> bool {
    exists|j: int| 0 <= j < names.len() && dup_in_prefix(names, j)
}

/// Builds the status table for a roster: one default status per name, in
/// roster order.  A repeated name is rejected; the reported name is the
/// first one that repeats an earlier entry.
pub fn player_table_from_names(names: &Vec<String>) -> (r: Result<
    PlayerStatusTable,
    GameSystemError,
>)
    ensures
        ({
            let ns = strs_view(names@);
            match r {
                Ok(t) => {
                    &&& !has_duplicate(ns)
                    &&& t.wf()
                    &&& t.names@ == names@
                    &&& t.statuses@.len() == names@.len()
                    &&& forall|i: int|
                        0 <= i < names@.len() ==> t.statuses@[i] == (PlayerStatus {
                            position: 0,
                            num_skip: 0,
                            order_of_arrival: None,
                        })
                },
                Err(GameSystemError::DuplicatePlayer(nm)) => {
                    &&& has_duplicate(ns)
                    &&& exists|j: int|
                        0 <= j < ns.len() && #[trigger] dup_in_prefix(ns, j) && nm@ == ns[j]
                            && forall|j2: int| 0 <= j2 < j ==> !dup_in_prefix(ns, j2)
                },
                Err(_) => false,
            }
        }),
{
    let ghost ns = strs_view(names@);
    let mut table = PlayerStatusTable::new();
    let n = names.len();
    let mut idx: usize = 0;
    while idx < n
        invariant
            n == names@.len(),
            idx <= n,
            table.wf(),
            table.names@ == names@.take(idx as int),
            table.statuses@.len() == idx,
            ns == strs_view(names@),
            forall|i: int|
                0 <= i < idx ==> table.statuses@[i] == (PlayerStatus {
                    position: 0,
                    num_skip: 0,
                    order_of_arrival: None,
                }),
            forall|j: int| 0 <= j < idx ==> !dup_in_prefix(ns, j),
        decreases n - idx,
    {
        proof {
            assert(table.names_view() =~= ns.take(idx as int));
        }
        if table.contains_key(names[idx].as_str()) {
            proof {
                lemma_first_name_index(table.names_view(), names@[idx as int]@);
                let f = first_name_index(table.names_view(), names@[idx as int]@);
                assert(ns[f] == names@[idx as int]@);
                assert(dup_in_prefix(ns, idx as int));
            }
            return Err(GameSystemError::DuplicatePlayer(names[idx].clone()));
        }
        proof {
            lemma_first_name_index(table.names_view(), names@[idx as int]@);
            assert forall|i: int| 0 <= i < idx implies ns[i] != ns[idx as int] by {
                assert(table.names_view()[i] == ns[i]);
            }
        }
        table.insert_new(names[idx].clone(), PlayerStatus::default());
        proof {
            assert(table.names@ =~= names@.take(idx + 1));
        }
        idx = idx + 1;
    }
    proof {
        assert(names@.take(n as int) =~= names@);
    }
    Ok(table)
}

/// One scan of the turn-order resolver over the candidate list `cands`
/// (roster names cyclically after the current player): an arrived candidate
/// is passed over, a waiting candidate has one pending skip consumed, and
/// the first candidate that is neither takes the turn.  A candidate missing
/// from the table stops the scan; changes made so far remain.
pub open spec fn spec_next_player(
    cands: Seq<Seq<char>>,
    names: Seq<Seq<char>>,
    sts: Seq<PlayerStatus>,
) -> Result<(Option<Seq<char>>, Seq<PlayerStatus>), (Seq<char>, Seq<PlayerStatus>)>
    decreases cands.len(),
{
    if cands.len() == 0 {
        Ok((None, sts))
    } else {
        let p = cands[0];
        let i = first_name_index(names, p);
        if i < 0 || i >= sts.len() {
            Err((p, sts))
        } else if sts[i].order_of_arrival is Some {
            spec_next_player(cands.drop_first(), names, sts)
        } else if sts[i].num_skip != 0 {
            spec_next_player(cands.drop_first(), names, sts.update(i, sts[i].spec_sub_num_skip(1)))
        } else {
            Ok((Some(p), sts))
        }
    }
}

/// The scan only decrements skip counters: positions and arrival ranks
/// come out exactly as they went in.
pub proof fn lemma_next_player_preserves_flags(
    cands: Seq<Seq<char>>,
    names: Seq<Seq<char>>,
    sts: Seq<PlayerStatus>,
)
    ensures
        match spec_next_player(cands, names, sts) {
            Ok((_, sts2)) => sts2.len() == sts.len() && forall|q: int|
                0 <= q < sts.len() ==> (#[trigger] sts2[q]).order_of_arrival
                    == sts[q].order_of_arrival && sts2[q].position == sts[q].position,
            Err((_, sts2)) => sts2.len() == sts.len() && forall|q: int|
                0 <= q < sts.len() ==> (#[trigger] sts2[q]).order_of_arrival
                    == sts[q].order_of_arrival && sts2[q].position == sts[q].position,
        },
    decreases cands.len(),
{
    if cands.len() > 0 {
        let p = cands[0];
        let i = first_name_index(names, p);
        if i < 0 || i >= sts.len() {
        } else if sts[i].order_of_arrival is Some {
            lemma_next_player_preserves_flags(cands.drop_first(), names, sts);
        } else if sts[i].num_skip != 0 {
            lemma_next_player_preserves_flags(
                cands.drop_first(),
                names,
                sts.update(i, sts[i].spec_sub_num_skip(1)),
            );
        }
    }
}

/// Whether a player cannot take the turn right now: already arrived, or
/// still waiting out pending skips.
pub open spec fn ineligible(name: Seq<char>, names: Seq<Seq<char>>, sts: Seq<PlayerStatus>) -> bool {
    let i = first_name_index(names, name);
    &&& 0 <= i < sts.len()
    &&& (sts[i].order_of_arrival is Some || sts[i].num_skip > 0)
}

/// The resolver never hands the turn to a player who has already arrived.
pub proof fn lemma_next_player_not_arrived(
    cands: Seq<Seq<char>>,
    names: Seq<Seq<char>>,
    sts: Seq<PlayerStatus>,
)
    ensures
        match spec_next_player(cands, names, sts) {
            Ok((Some(p), sts2)) => {
                let i = first_name_index(names, p);
                &&& 0 <= i < sts.len()
                &&& sts[i].order_of_arrival is None
            },
            _ => true,
        },
    decreases cands.len(),
{
    if cands.len() > 0 {
        let p0 = cands[0];
        let i0 = first_name_index(names, p0);
        if i0 < 0 || i0 >= sts.len() {
        } else if sts[i0].order_of_arrival is Some {
            lemma_next_player_not_arrived(cands.drop_first(), names, sts);
        } else if sts[i0].num_skip != 0 {
            let sts2 = sts.update(i0, sts[i0].spec_sub_num_skip(1));
            lemma_next_player_not_arrived(cands.drop_first(), names, sts2);
            match spec_next_player(cands.drop_first(), names, sts2) {
                Ok((Some(p), _)) => {
                    let i = first_name_index(names, p);
                    assert(sts2[i].order_of_arrival == sts[i].order_of_arrival);
                },
                _ => {},
            }
        }
    }
}

/// Whoever the resolver returns, every candidate scanned before them was
/// ineligible when the scan began: within one cycle of distinct names, the
/// current player comes back out only when no other player could take the
/// turn.
pub proof fn lemma_next_player_first_eligible(
    cands: Seq<Seq<char>>,
    names: Seq<Seq<char>>,
    sts: Seq<PlayerStatus>,
)
    requires
        forall|i: int, j: int| 0 <= i < j < cands.len() ==> cands[i] != cands[j],
        names.len() == sts.len(),
    ensures
        match spec_next_player(cands, names, sts) {
            Ok((Some(p), sts2)) => exists|pos: int|
                0 <= pos < cands.len() && cands[pos] == p && forall|q: int|
                    0 <= q < pos ==> ineligible(#[trigger] cands[q], names, sts),
            _ => true,
        },
    decreases cands.len(),
{
    if cands.len() > 0 {
        let p0 = cands[0];
        let i0 = first_name_index(names, p0);
        lemma_first_name_index(names, p0);
        if i0 < 0 || i0 >= sts.len() {
        } else if sts[i0].order_of_arrival is Some {
            lemma_next_player_first_eligible(cands.drop_first(), names, sts);
            match spec_next_player(cands.drop_first(), names, sts) {
                Ok((Some(p), _)) => {
                    let pos = choose|pos: int|
                        0 <= pos < cands.drop_first().len() && cands.drop_first()[pos] == p
                            && forall|q: int|
                            0 <= q < pos ==> ineligible(#[trigger] cands.drop_first()[q], names, sts);
                    assert(cands[pos + 1] == p);
                    assert forall|q: int| 0 <= q < pos + 1 implies ineligible(
                        #[trigger] cands[q],
                        names,
                        sts,
                    ) by {
                        if q > 0 {
                            assert(cands.drop_first()[q - 1] == cands[q]);
                        }
                    }
                },
                _ => {},
            }
        } else if sts[i0].num_skip != 0 {
            let sts2 = sts.update(i0, sts[i0].spec_sub_num_skip(1));
            lemma_next_player_first_eligible(cands.drop_first(), names, sts2);
            match spec_next_player(cands.drop_first(), names, sts2) {
                Ok((Some(p), _)) => {
                    let pos = choose|pos: int|
                        0 <= pos < cands.drop_first().len() && cands.drop_first()[pos] == p
                            && forall|q: int|
                            0 <= q < pos ==> ineligible(
                                #[trigger] cands.drop_first()[q],
                                names,
                                sts2,
                            );
                    assert(cands[pos + 1] == p);
                    assert forall|q: int| 0 <= q < pos + 1 implies ineligible(
                        #[trigger] cands[q],
                        names,
                        sts,
                    ) by {
                        if q > 0 {
                            assert(cands.drop_first()[q - 1] == cands[q]);
                            assert(ineligible(cands[q], names, sts2));
                            let iq = first_name_index(names, cands[q]);
                            lemma_first_name_index(names, cands[q]);
                            if iq == i0 {
                                assert(names[iq] == cands[q]);
                                assert(names[i0] == p0);
                                assert(cands[q] == p0);
                            }
                            assert(iq != i0);
                            assert(sts2[iq] == sts[iq]);
                        }
                    }
                },
                _ => {},
            }
        }
    }
}

/// Determines who takes the next turn.
pub trait PlayerOrder {
    /// The turn order as a sequence of names.
    spec fn order(&self) -> Seq<Seq<char>>;

    /// Starting right after `current_player` in cyclic order, scans one full
    /// cycle for the next eligible player, consuming one pending skip of
    /// every waiting player passed over.  Returns `Ok(None)` when the cycle
    /// holds no eligible player, and a not-found error when a scanned name
    /// (or `current_player` itself) is missing from the table.
    fn next_player(&self, current_player: &str, player_status_table: &mut PlayerStatusTable) -> (r:
        Result<Option<String>, GameSystemError>)
        requires
            old(player_status_table).wf(),
        ensures
            final(player_status_table).wf(),
            final(player_status_table).names@ == old(player_status_table).names@,
            ({
                let ord = self.order();
                let names = old(player_status_table).names_view();
                let sts0 = old(player_status_table).statuses@;
                let k = first_name_index(ord, current_player@);
                if k < 0 {
                    &&& final(player_status_table).statuses@ == sts0
                    &&& match r {
                        Err(GameSystemError::NotFoundPlayer(nm)) => nm@ == current_player@,
                        _ => false,
                    }
                } else {
                    let cands = ord.skip(k + 1) + ord.take(k + 1);
                    match spec_next_player(cands, names, sts0) {
                        Ok((opt, sts)) => {
                            &&& final(player_status_table).statuses@ == sts
                            &&& match (r, opt) {
                                (Ok(Some(nm)), Some(p)) => nm@ == p,
                                (Ok(None), None) => true,
                                _ => false,
                            }
                        },
                        Err((missing, sts)) => {
                            &&& final(player_status_table).statuses@ == sts
                            &&& match r {
                                Err(GameSystemError::NotFoundPlayer(nm)) => nm@ == missing,
                                _ => false,
                            }
                        },
                    }
                }
            }),
    ;
}

impl PlayerOrder for Vec<String> {
    open spec fn order(&self) -> Seq<Seq<char>> {
        strs_view(self@)
    }

    fn next_player(&self, current_player: &str, player_status_table: &mut PlayerStatusTable) -> (r:
        Result<Option<String>, GameSystemError>)
    {
        let ghost ord = self.order();
        let ghost names = old(player_status_table).names_view();
        let ghost sts0 = old(player_status_table).statuses@;
        let len = self.len();
        let mut k: usize = 0;
        let mut found = false;
        while k < len && !found
            invariant
                len == self@.len(),
                k <= len,
                ord == self.order(),
                found ==> k < len && ord[k as int] == current_player@,
                forall|j: int| 0 <= j < k ==> ord[j] != current_player@,
            decreases len - k, (if found {
                0int
            } else {
                1int
            }),
        {
            if str_eq(self[k].as_str(), current_player) {
                found = true;
            } else {
                proof {
                    assert(ord[k as int] == self@[k as int]@);
                }
                k = k + 1;
            }
        }
        proof {
            lemma_first_name_index(ord, current_player@);
        }
        if !found {
            proof {
                let f = first_name_index(ord, current_player@);
                if f >= 0 {
                    assert(ord[f] == current_player@);
                }
            }
            return Err(GameSystemError::NotFoundPlayer(current_player.to_owned()));
        }
        proof {
            assert(ord[k as int] == current_player@);
            let f = first_name_index(ord, current_player@);
            assert(f >= 0);
            if f < k {
                assert(ord[f] != current_player@);
            }
            if f > k {
                assert(ord[k as int] != current_player@);
            }
        }
        let ghost cands = ord.skip(k + 1) + ord.take(k + 1);
        proof {
            assert(cands.skip(0) =~= cands);
        }
        let mut done: usize = 0;
        while done < len
            invariant
                len == self@.len(),
                ord == self.order(),
                done <= len,
                k < len,
                first_name_index(ord, current_player@) == k as int,
                cands == ord.skip(k + 1) + ord.take(k + 1),
                names == old(player_status_table).names_view(),
                sts0 == old(player_status_table).statuses@,
                player_status_table.wf(),
                player_status_table.names@ == old(player_status_table).names@,
                spec_next_player(cands, names, sts0) == spec_next_player(
                    cands.skip(done as int),
                    names,
                    player_status_table.statuses@,
                ),
            decreases len - done,
        {
            let step = done + 1;
            let idx = if step < len - k {
                k + step
            } else {
                step - (len - k)
            };
            let cand: &String = &self[idx];
            proof {
                assert(cands.len() == len);
                if step < len - k {
                    assert(cands[done as int] == ord.skip(k + 1)[done as int]);
                    assert(ord.skip(k + 1)[done as int] == ord[k + step]);
                } else {
                    assert(cands[done as int] == ord.take(k + 1)[done - (len - k - 1)]);
                }
                assert(cands[done as int] == ord[idx as int]);
                assert(ord[idx as int] == self@[idx as int]@);
                assert(cands.skip(done as int)[0] == cands[done as int]);
                assert(cands.skip(done as int).drop_first() =~= cands.skip(step as int));
                assert(player_status_table.names_view() == names);
            }
            match player_status_table.index_of(cand.as_str()) {
                None => {
                    proof {
                        lemma_first_name_index(names, cand@);
                    }
                    return Err(GameSystemError::NotFoundPlayer(cand.clone()));
                },
                Some(i) => {
                    proof {
                        lemma_first_name_index(names, cand@);
                    }
                    let st = *player_status_table.status_at(i);
                    match st.order_of_arrival {
                        Some(_) => {},
                        None => {
                            if st.num_skip != 0 {
                                let mut st2 = st;
                                st2.sub_num_skip(1);
                                player_status_table.set_status_at(i, st2);
                            } else {
                                return Ok(Some(cand.clone()));
                            }
                        },
                    }
                },
            }
            done = step;
        }
        proof {
            assert(cands.skip(len as int) =~= Seq::<Seq<char>>::empty());
        }
        Ok(None)
    }
}

} // verus!
