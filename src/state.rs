use vstd::prelude::*;
use crate::card::{Card, Suit, Value};
use crate::player::{hand_score, player_line, Player, PlayerModel, MAX_HAND_CARDS};

verus! {

/// The stage of a round. `Playing(i)` means it is the turn of the i-th player of the
/// turn order.
#[derive(Debug, Clone, Copy, PartialEq, Eq, Structural)]
pub enum Status {
    Betting,
    Dealing,
    Playing(usize),
    DealerTurn,
    End,
}

/// One state change. Folding a table's effects, in order, into a projection rebuilds
/// the table's state.
#[derive(Debug, Clone, PartialEq, Eq)]
pub enum Effect {
    Init(Vec<String>),
    AddPlayer(String),
    RemovePlayer(String),
    Bet(String, u32),
    /// Two cards for each player, in turn order, and the dealer's two cards.
    Deal(Vec<(String, Card, Card)>, Card, Card),
    DealerBlackjack,
    Start,
    AddCard(String, Card),
    AddDealerCard(Card),
    OpenDealerCard(Card),
    Burst(String),
    DealerBurst,
    NextPlayer,
    NoPlayer,
    Finish,
}

/// An effect as contracts see it: names as character sequences.
pub enum EffectModel {
    Init(Seq<Seq<char>>),
    AddPlayer(Seq<char>),
    RemovePlayer(Seq<char>),
    Bet(Seq<char>, u32),
    Deal(Seq<(Seq<char>, Card, Card)>, Card, Card),
    DealerBlackjack,
    Start,
    AddCard(Seq<char>, Card),
    AddDealerCard(Card),
    OpenDealerCard(Card),
    Burst(Seq<char>),
    DealerBurst,
    NextPlayer,
    NoPlayer,
    Finish,
}

pub open spec fn names_of(v: Seq<String>) -> Seq<Seq<char>> {
    v.map_values(|s: String| s@)
}

pub open spec fn dealt_of(v: Seq<(String, Card, Card)>) -> Seq<(Seq<char>, Card, Card)> {
    v.map_values(|t: (String, Card, Card)| (t.0@, t.1, t.2))
}

impl View for Effect {
    type V = EffectModel;

    open spec fn view(&self) -> EffectModel {
        match self {
            Effect::Init(v) => EffectModel::Init(names_of(v@)),
            Effect::AddPlayer(n) => EffectModel::AddPlayer(n@),
            Effect::RemovePlayer(n) => EffectModel::RemovePlayer(n@),
            Effect::Bet(n, a) => EffectModel::Bet(n@, *a),
            Effect::Deal(v, d1, d2) => EffectModel::Deal(dealt_of(v@), *d1, *d2),
            Effect::DealerBlackjack => EffectModel::DealerBlackjack,
            Effect::Start => EffectModel::Start,
            Effect::AddCard(n, c) => EffectModel::AddCard(n@, *c),
            Effect::AddDealerCard(c) => EffectModel::AddDealerCard(*c),
            Effect::OpenDealerCard(c) => EffectModel::OpenDealerCard(*c),
            Effect::Burst(n) => EffectModel::Burst(n@),
            Effect::DealerBurst => EffectModel::DealerBurst,
            Effect::NextPlayer => EffectModel::NextPlayer,
            Effect::NoPlayer => EffectModel::NoPlayer,
            Effect::Finish => EffectModel::Finish,
        }
    }
}

/// The effects of a batch, as contracts see them.
pub open spec fn effects_model(v: Seq<Effect>) -> Seq<EffectModel> {
    v.map_values(|e: Effect| e@)
}

fn copy_names(v: &Vec<String>) -> (r: Vec<String>)
    ensures
        names_of(r@) == names_of(v@),
{
    let mut r: Vec<String> = Vec::new();
    let mut i: usize = 0;
    while i < v.len()
        invariant
            i <= v@.len(),
            r@.len() == i,
            forall|k: int| 0 <= k < i ==> (#[trigger] r@[k])@ == v@[k]@,
        decreases v@.len() - i,
    {
        r.push(v[i].clone());
        i = i + 1;
    }
    assert(names_of(r@) =~= names_of(v@));
    r
}

fn copy_dealt(v: &Vec<(String, Card, Card)>) -> (r: Vec<(String, Card, Card)>)
    ensures
        dealt_of(r@) == dealt_of(v@),
{
    let mut r: Vec<(String, Card, Card)> = Vec::new();
    let mut i: usize = 0;
    while i < v.len()
        invariant
            i <= v@.len(),
            r@.len() == i,
            forall|k: int|
                0 <= k < i ==> (#[trigger] r@[k]).0@ == v@[k].0@ && r@[k].1 == v@[k].1 && r@[k].2
                    == v@[k].2,
        decreases v@.len() - i,
    {
        let t = &v[i];
        r.push((t.0.clone(), t.1, t.2));
        i = i + 1;
    }
    assert(dealt_of(r@) =~= dealt_of(v@));
    r
}

impl Effect {
    /// A copy of this effect.
    pub fn duplicate(&self) -> (r: Effect)
        ensures
            r@ == self@,
    {
        match self {
            Effect::Init(v) => Effect::Init(copy_names(v)),
            Effect::AddPlayer(n) => Effect::AddPlayer(n.clone()),
            Effect::RemovePlayer(n) => Effect::RemovePlayer(n.clone()),
            Effect::Bet(n, a) => Effect::Bet(n.clone(), *a),
            Effect::Deal(v, d1, d2) => Effect::Deal(copy_dealt(v), *d1, *d2),
            Effect::DealerBlackjack => Effect::DealerBlackjack,
            Effect::Start => Effect::Start,
            Effect::AddCard(n, c) => Effect::AddCard(n.clone(), *c),
            Effect::AddDealerCard(c) => Effect::AddDealerCard(*c),
            Effect::OpenDealerCard(c) => Effect::OpenDealerCard(*c),
            Effect::Burst(n) => Effect::Burst(n.clone()),
            Effect::DealerBurst => Effect::DealerBurst,
            Effect::NextPlayer => Effect::NextPlayer,
            Effect::NoPlayer => Effect::NoPlayer,
            Effect::Finish => Effect::Finish,
        }
    }
}

/// A table's state as contracts see it: the players in turn order, the dealer, the stage.
pub struct StateModel {
    pub players: Seq<PlayerModel>,
    pub dealer: PlayerModel,
    pub phase: Status,
}

pub open spec fn fresh_player(name: Seq<char>) -> PlayerModel {
    PlayerModel { name, hand: Seq::empty(), amount: 0 }
}

pub open spec fn has_name(ps: Seq<PlayerModel>, name: Seq<char>) -> bool {
    exists|i: int| 0 <= i < ps.len() && (#[trigger] ps[i]).name == name
}

pub open spec fn index_of(ps: Seq<PlayerModel>, name: Seq<char>) -> int {
    choose|i: int| 0 <= i < ps.len() && (#[trigger] ps[i]).name == name
}

pub open spec fn names_distinct(ps: Seq<PlayerModel>) -> bool {
    forall|i: int, j: int|
        0 <= i < ps.len() && 0 <= j < ps.len() && i != j ==> (#[trigger] ps[i]).name
            != (#[trigger] ps[j]).name
}

pub open spec fn turn_order(ps: Seq<PlayerModel>) -> Seq<Seq<char>> {
    ps.map_values(|p: PlayerModel| p.name)
}

/// Names unique, hands within bounds, and a turn that points at a player.
pub open spec fn model_wf(m: StateModel) -> bool {
    &&& names_distinct(m.players)
    &&& forall|i: int| 0 <= i < m.players.len() ==> (#[trigger] m.players[i]).hand.len() <= MAX_HAND_CARDS
    &&& m.dealer.hand.len() <= MAX_HAND_CARDS
    &&& m.phase matches Status::Playing(i) ==> i < m.players.len()
}

/// The stage after a `NextPlayer`: the first turn after dealing, the next player's turn,
/// or the dealer's after the last player.
pub open spec fn next_phase(phase: Status, n_players: nat) -> Status {
    match phase {
        Status::Playing(i) => if i + 1 < n_players {
            Status::Playing((i + 1) as usize)
        } else {
            Status::DealerTurn
        },
        Status::Dealing => Status::Playing(0),
        _ => phase,
    }
}

/// Whether `e` can be applied to `m`: the players it names exist (or, for a new one, do
/// not), hands stay within bounds, the dealer has a second card to open, and a round
/// does not lose a player while turns are being taken.
pub open spec fn applicable(m: StateModel, e: EffectModel) -> bool {
    match e {
        EffectModel::Init(names) => names.no_duplicates(),
        EffectModel::AddPlayer(n) => !has_name(m.players, n),
        EffectModel::RemovePlayer(n) => !(m.phase is Playing),
        EffectModel::Bet(n, a) => has_name(m.players, n) && m.players[index_of(m.players, n)].amount
            + a <= u32::MAX,
        EffectModel::Deal(dealt, d1, d2) => {
            &&& dealt.len() == m.players.len()
            &&& forall|i: int|
                0 <= i < dealt.len() ==> (#[trigger] dealt[i]).0 == m.players[i].name
                    && m.players[i].hand.len() + 2 <= MAX_HAND_CARDS
            &&& m.dealer.hand.len() + 2 <= MAX_HAND_CARDS
        },
        EffectModel::AddCard(n, c) => has_name(m.players, n) && m.players[index_of(
            m.players,
            n,
        )].hand.len() < MAX_HAND_CARDS,
        EffectModel::AddDealerCard(c) => m.dealer.hand.len() < MAX_HAND_CARDS,
        EffectModel::OpenDealerCard(c) => m.dealer.hand.len() >= 2,
        EffectModel::NextPlayer => m.phase == Status::Dealing ==> m.players.len() > 0,
        _ => true,
    }
}

/// The state after one effect.
pub open spec fn apply(m: StateModel, e: EffectModel) -> StateModel {
    match e {
        EffectModel::Init(names) => StateModel {
            players: names.map_values(|n: Seq<char>| fresh_player(n)),
            dealer: fresh_player(m.dealer.name),
            phase: Status::Betting,
        },
        EffectModel::AddPlayer(n) => StateModel { players: m.players.push(fresh_player(n)), ..m },
        EffectModel::RemovePlayer(n) => if has_name(m.players, n) {
            StateModel { players: m.players.remove(index_of(m.players, n)), ..m }
        } else {
            m
        },
        EffectModel::Bet(n, a) => {
            let i = index_of(m.players, n);
            StateModel {
                players: m.players.update(
                    i,
                    PlayerModel { amount: (m.players[i].amount + a) as u32, ..m.players[i] },
                ),
                ..m
            }
        },
        EffectModel::Deal(dealt, d1, d2) => StateModel {
            players: Seq::new(
                m.players.len(),
                |i: int|
                    PlayerModel {
                        hand: m.players[i].hand + seq![dealt[i].1, dealt[i].2],
                        ..m.players[i]
                    },
            ),
            dealer: PlayerModel { hand: m.dealer.hand + seq![d1, d2], ..m.dealer },
            ..m
        },
        EffectModel::Start => StateModel { phase: Status::Dealing, ..m },
        EffectModel::AddCard(n, c) => {
            let i = index_of(m.players, n);
            StateModel {
                players: m.players.update(
                    i,
                    PlayerModel { hand: m.players[i].hand.push(c), ..m.players[i] },
                ),
                ..m
            }
        },
        EffectModel::AddDealerCard(c) => StateModel {
            dealer: PlayerModel { hand: m.dealer.hand.push(c), ..m.dealer },
            ..m
        },
        EffectModel::OpenDealerCard(c) => StateModel {
            dealer: PlayerModel { hand: m.dealer.hand.update(1, c), ..m.dealer },
            ..m
        },
        EffectModel::NextPlayer => StateModel {
            phase: next_phase(m.phase, m.players.len()),
            ..m
        },
        EffectModel::NoPlayer => StateModel { phase: Status::End, ..m },
        EffectModel::Finish => StateModel { phase: Status::End, ..m },
        _ => m,
    }
}

/// The state after a list of effects, applied in order.
pub open spec fn replay(m: StateModel, effects: Seq<EffectModel>) -> StateModel
    decreases effects.len(),
{
    if effects.len() == 0 {
        m
    } else {
        apply(replay(m, effects.drop_last()), effects.last())
    }
}

/// What a settled player gets back: nothing after a bust, twice the wager on a win
/// (the dealer busts or scores lower), the wager on a tie, else nothing.
pub open spec fn payout(player_score: nat, dealer_score: nat, wager: nat) -> nat {
    if player_score > 21 {
        0
    } else if dealer_score > 21 || player_score > dealer_score {
        2 * wager
    } else if player_score == dealer_score {
        wager
    } else {
        0
    }
}

/// The payout of one wager and the net gain (payout less wager).
pub fn settle(player_score: u32, dealer_score: u32, wager: u32) -> (r: (u64, i64))
    ensures
        r.0 == payout(player_score as nat, dealer_score as nat, wager as nat),
        r.1 == r.0 - wager,
{
    let w = wager as u64;
    let paid: u64 = if player_score > 21 {
        0
    } else if dealer_score > 21 || player_score > dealer_score {
        2 * w
    } else if player_score == dealer_score {
        w
    } else {
        0
    };
    (paid, paid as i64 - w as i64)
}

pub proof fn lemma_index_of(ps: Seq<PlayerModel>, i: int)
    requires
        names_distinct(ps),
        0 <= i < ps.len(),
    ensures
        has_name(ps, ps[i].name),
        index_of(ps, ps[i].name) == i,
{
    assert(has_name(ps, ps[i].name));
    let j = index_of(ps, ps[i].name);
    assert(0 <= j < ps.len() && ps[j].name == ps[i].name);
}

/// One table's projection: the players in turn order, the dealer and the stage.
pub struct State {
    players: Vec<Player>,
    dealer: Player,
    status: Status,
}

pub open spec fn models(ps: Seq<Player>) -> Seq<PlayerModel> {
    ps.map_values(|p: Player| p@)
}

impl View for State {
    type V = StateModel;

    closed spec fn view(&self) -> StateModel {
        StateModel { players: models(self.players@), dealer: self.dealer@, phase: self.status }
    }
}

fn names_unique(names: &Vec<String>) -> (r: bool)
    ensures
        r == names_of(names@).no_duplicates(),
{
    let mut i: usize = 0;
    while i < names.len()
        invariant
            i <= names@.len(),
            forall|a: int, b: int|
                0 <= a < i && 0 <= b < names@.len() && a != b ==> names@[a]@
                    != names@[b]@,
        decreases names@.len() - i,
    {
        let mut j: usize = 0;
        while j < names.len()
            invariant
                i < names@.len(),
                j <= names@.len(),
                forall|a: int, b: int|
                    0 <= a < i && 0 <= b < names@.len() && a != b ==> names@[a]@
                        != names@[b]@,
                forall|b: int| 0 <= b < j && i != b ==> names@[i as int]@ != names@[b]@,
            decreases names@.len() - j,
        {
            if i != j && names[i] == names[j] {
                assert(names_of(names@)[i as int] == names_of(names@)[j as int]);
                assert(!names_of(names@).no_duplicates());
                return false;
            }
            j = j + 1;
        }
        i = i + 1;
    }
    assert(names_of(names@).no_duplicates()) by {
        assert forall|a: int, b: int|
            0 <= a < names_of(names@).len() && 0 <= b < names_of(names@).len() && a
                != b implies names_of(names@)[a] != names_of(names@)[b] by {
            assert(names@[a]@ != names@[b]@);
        }
    }
    true
}

pub open spec fn hidden_card() -> Card {
    Card { suit: Suit::Hidden, value: Value::Hidden }
}

/// The lines of the players, in turn order, each ending in a newline.
pub open spec fn player_lines(ps: Seq<PlayerModel>) -> Seq<char>
    decreases ps.len(),
{
    if ps.len() == 0 {
        Seq::empty()
    } else {
        player_lines(ps.drop_last()) + player_line(ps.last()) + "\n"@
    }
}

/// The table as it is shown: the dealer's line, then each player's, each ending in a newline.
pub open spec fn board_text(m: StateModel) -> Seq<char> {
    player_line(m.dealer) + "\n"@ + player_lines(m.players)
}

impl State {
    /// Whether a deal of these cards fits the players, in turn order, and the hands.
    fn deal_fits(&self, dealt: &Vec<(String, Card, Card)>) -> (r: bool)
        requires
            self.wf(),
        ensures
            r == (dealt@.len() == self@.players.len() && (forall|i: int|
                0 <= i < dealt@.len() ==> (#[trigger] dealt_of(dealt@)[i]).0 == self@.players[i].name
                    && self@.players[i].hand.len() + 2 <= MAX_HAND_CARDS)
                && self@.dealer.hand.len() + 2 <= MAX_HAND_CARDS),
    {
        if dealt.len() != self.players.len() || self.dealer.get_hands(false).len() + 2
            > MAX_HAND_CARDS {
            return false;
        }
        let mut i: usize = 0;
        while i < dealt.len()
            invariant
                self.wf(),
                dealt@.len() == self@.players.len(),
                i <= dealt@.len(),
                forall|k: int|
                    0 <= k < i ==> (#[trigger] dealt@[k]).0@ == self@.players[k].name
                        && self@.players[k].hand.len() + 2 <= MAX_HAND_CARDS,
            decreases dealt@.len() - i,
        {
            assert(self@.players[i as int] == self.players@[i as int]@);
            if !self.players[i].is_named(&dealt[i].0) || self.players[i].get_hands(
                false,
            ).len() + 2 > MAX_HAND_CARDS {
                let ghost dm = dealt_of(dealt@);
                assert(dm[i as int].0 == dealt@[i as int].0@);
                assert(!(dm[i as int].0 == self@.players[i as int].name
                    && self@.players[i as int].hand.len() + 2 <= MAX_HAND_CARDS));
                return false;
            }
            let ghost done = i as int;
            assert(dealt@[done].0@ == self@.players[done].name);
            assert(self@.players[done].hand.len() + 2 <= MAX_HAND_CARDS);
            i = i + 1;
            assert forall|k: int| 0 <= k < i implies (#[trigger] dealt@[k]).0@
                == self@.players[k].name && self@.players[k].hand.len() + 2 <= MAX_HAND_CARDS by {
                if k < done {
                } else {
                    assert(k == done);
                }
            }
        }
        assert forall|k: int| 0 <= k < dealt_of(dealt@).len() implies (#[trigger] dealt_of(
            dealt@,
        )[k]).0 == self@.players[k].name && self@.players[k].hand.len() + 2
            <= MAX_HAND_CARDS by {
            assert(dealt_of(dealt@)[k].0 == dealt@[k].0@);
        }
        true
    }

    pub open spec fn wf(&self) -> bool {
        model_wf(self@)
    }

    /// An empty table in `Betting`.
    pub fn new() -> (r: State)
        ensures
            r.wf(),
            r@.players.len() == 0,
            r@.dealer.hand.len() == 0,
            r@.dealer.amount == 0,
            r@.phase == Status::Betting,
    {
        let r = State {
            players: Vec::new(),
            dealer: Player::new(String::from_str("ディーラー")),
            status: Status::Betting,
        };
        assert(models(r.players@) =~= Seq::empty());
        r
    }

    /// Whether `effect` can be applied now.
    pub fn can_apply(&self, effect: &Effect) -> (r: bool)
        requires
            self.wf(),
        ensures
            r == applicable(self@, effect@),
    {
        match effect {
            Effect::Init(names) => names_unique(names),
            Effect::AddPlayer(n) => !self.has_player(n),
            Effect::RemovePlayer(_) => !matches!(self.status, Status::Playing(_)),
            Effect::Bet(n, a) => match self.find(n) {
                Some(i) => self.players[i].get_amount() as u64 + *a as u64 <= u32::MAX as u64,
                None => false,
            },
            Effect::Deal(dealt, _, _) => self.deal_fits(dealt),
            Effect::AddCard(n, _) => match self.find(n) {
                Some(i) => self.players[i].get_hands(false).len() < MAX_HAND_CARDS,
                None => false,
            },
            Effect::AddDealerCard(_) => self.dealer.get_hands(false).len() < MAX_HAND_CARDS,
            Effect::OpenDealerCard(_) => self.dealer.get_hands(false).len() >= 2,
            Effect::NextPlayer => match self.status {
                Status::Dealing => self.players.len() > 0,
                _ => true,
            },
            _ => true,
        }
    }

    /// Applies one effect.
    pub fn apply_effect(&mut self, effect: Effect)
        requires
            old(self).wf(),
            applicable(old(self)@, effect@),
        ensures
            final(self).wf(),
            final(self)@ == apply(old(self)@, effect@),
    {
        match effect {
            Effect::Init(names) => self.init(names),
            Effect::AddPlayer(name) => self.add_player(name),
            Effect::RemovePlayer(name) => self.remove_player(&name),
            Effect::Bet(name, amount) => self.bet(&name, amount),
            Effect::Deal(dealt, dealer_card1, dealer_card2) => self.deal(
                dealt,
                dealer_card1,
                dealer_card2,
            ),
            Effect::Start => {
                self.status = Status::Dealing;
            },
            Effect::AddCard(name, card) => self.add_card(&name, card),
            Effect::AddDealerCard(card) => {
                self.dealer.add_card(card);
            },
            Effect::OpenDealerCard(card) => {
                self.dealer.open_card(card);
            },
            Effect::NextPlayer => self.next_player(),
            Effect::NoPlayer => {
                self.status = Status::End;
            },
            Effect::Finish => {
                self.status = Status::End;
            },
            Effect::DealerBlackjack => {},
            Effect::Burst(_) => {},
            Effect::DealerBurst => {},
        }
    }

    fn init(&mut self, names: Vec<String>)
        requires
            old(self).wf(),
            applicable(old(self)@, EffectModel::Init(names_of(names@))),
        ensures
            final(self).wf(),
            final(self)@ == apply(old(self)@, EffectModel::Init(names_of(names@))),
    {
        let ghost m = self@;
        let ghost e = EffectModel::Init(names_of(names@));
        self.players = Vec::new();
        self.dealer.clear();
        self.status = Status::Betting;
        let mut i: usize = 0;
        while i < names.len()
            invariant
                i <= names@.len(),
                self.players@.len() == i,
                forall|k: int| 0 <= k < i ==> (#[trigger] self.players@[k])@ == fresh_player(names@[k]@),
                self.dealer@ == fresh_player(m.dealer.name),
                self.status == Status::Betting,
            decreases names@.len() - i,
        {
            self.players.push(Player::new(names[i].clone()));
            i = i + 1;
        }
        let ghost target = apply(m, e);
        assert(models(self.players@) =~= target.players);
        proof {
            let ns = names_of(names@);
            assert forall|a: int, b: int|
                0 <= a < target.players.len() && 0 <= b < target.players.len() && a
                    != b implies (#[trigger] target.players[a]).name
                != (#[trigger] target.players[b]).name by {
                assert(target.players[a].name == ns[a]);
                assert(target.players[b].name == ns[b]);
            }
        }
    }

    fn add_player(&mut self, name: String)
        requires
            old(self).wf(),
            !has_name(old(self)@.players, name@),
        ensures
            final(self).wf(),
            final(self)@ == apply(old(self)@, EffectModel::AddPlayer(name@)),
    {
        let ghost m = self@;
        let ghost n = name@;
        self.players.push(Player::new(name));
        assert(models(self.players@) =~= m.players.push(fresh_player(n)));
        assert forall|a: int, b: int|
            0 <= a < self@.players.len() && 0 <= b < self@.players.len() && a != b implies (
            #[trigger] self@.players[a]).name != (#[trigger] self@.players[b]).name by {
            if a < m.players.len() && b < m.players.len() {
            } else if a < m.players.len() {
                assert(m.players[a].name != n);
            } else {
                assert(m.players[b].name != n);
            }
        }
    }

    fn remove_player(&mut self, name: &String)
        requires
            old(self).wf(),
            !(old(self)@.phase is Playing),
        ensures
            final(self).wf(),
            final(self)@ == apply(old(self)@, EffectModel::RemovePlayer(name@)),
    {
        let ghost m = self@;
        match self.find(name) {
            Some(i) => {
                self.players.remove(i);
                assert(models(self.players@) =~= m.players.remove(i as int));
                assert forall|a: int, b: int|
                    0 <= a < self@.players.len() && 0 <= b < self@.players.len() && a
                        != b implies (#[trigger] self@.players[a]).name
                    != (#[trigger] self@.players[b]).name by {
                    let a2 = if a < i { a } else { a + 1 };
                    let b2 = if b < i { b } else { b + 1 };
                    assert(self@.players[a] == m.players[a2]);
                    assert(self@.players[b] == m.players[b2]);
                }
                assert forall|k: int| 0 <= k < self@.players.len() implies (
                #[trigger] self@.players[k]).hand.len() <= MAX_HAND_CARDS by {
                    let k2 = if k < i { k } else { k + 1 };
                    assert(self@.players[k] == m.players[k2]);
                }
            },
            None => {},
        }
    }

    fn bet(&mut self, name: &String, amount: u32)
        requires
            old(self).wf(),
            applicable(old(self)@, EffectModel::Bet(name@, amount)),
        ensures
            final(self).wf(),
            final(self)@ == apply(old(self)@, EffectModel::Bet(name@, amount)),
    {
        let ghost m = self@;
        let i = self.find(name).unwrap();
        let mut p = self.players.remove(i);
        p.bet(amount);
        self.players.insert(i, p);
        assert(models(self.players@) =~= apply(m, EffectModel::Bet(name@, amount)).players);
    }

    fn add_card(&mut self, name: &String, card: Card)
        requires
            old(self).wf(),
            applicable(old(self)@, EffectModel::AddCard(name@, card)),
        ensures
            final(self).wf(),
            final(self)@ == apply(old(self)@, EffectModel::AddCard(name@, card)),
    {
        let ghost m = self@;
        let i = self.find(name).unwrap();
        let mut p = self.players.remove(i);
        p.add_card(card);
        self.players.insert(i, p);
        assert(models(self.players@) =~= apply(m, EffectModel::AddCard(name@, card)).players);
    }

    fn deal(&mut self, dealt: Vec<(String, Card, Card)>, dealer_card1: Card, dealer_card2: Card)
        requires
            old(self).wf(),
            applicable(old(self)@, EffectModel::Deal(dealt_of(dealt@), dealer_card1, dealer_card2)),
        ensures
            final(self).wf(),
            final(self)@ == apply(
                old(self)@,
                EffectModel::Deal(dealt_of(dealt@), dealer_card1, dealer_card2),
            ),
    {
        let ghost m = self@;
        let ghost e = EffectModel::Deal(dealt_of(dealt@), dealer_card1, dealer_card2);
        let mut i: usize = 0;
        while i < dealt.len()
            invariant
                i <= dealt@.len() == m.players.len(),
                applicable(m, e),
                e == EffectModel::Deal(dealt_of(dealt@), dealer_card1, dealer_card2),
                self.players@.len() == m.players.len(),
                self.dealer@ == m.dealer,
                self.status == m.phase,
                forall|k: int|
                    0 <= k < i ==> (#[trigger] self.players@[k])@ == (PlayerModel {
                        hand: m.players[k].hand + seq![dealt@[k].1, dealt@[k].2],
                        ..m.players[k]
                    }),
                forall|k: int| i <= k < m.players.len() ==> (#[trigger] self.players@[k])@ == m.players[k],
            decreases dealt@.len() - i,
        {
            assert(dealt_of(dealt@)[i as int] == (dealt@[i as int].0@, dealt@[i as int].1, dealt@[i as int].2));
            let mut p = self.players.remove(i);
            p.add_card(dealt[i].1);
            p.add_card(dealt[i].2);
            assert(p@.hand =~= m.players[i as int].hand + seq![dealt@[i as int].1, dealt@[i as int].2]);
            self.players.insert(i, p);
            i = i + 1;
        }
        self.dealer.add_card(dealer_card1);
        self.dealer.add_card(dealer_card2);
        assert(self.dealer@.hand =~= m.dealer.hand + seq![dealer_card1, dealer_card2]);
        assert forall|k: int| 0 <= k < m.players.len() implies models(self.players@)[k]
            == apply(m, e).players[k] by {
            assert(dealt_of(dealt@)[k] == (dealt@[k].0@, dealt@[k].1, dealt@[k].2));
        }
        assert(models(self.players@) =~= apply(m, e).players);
    }

    fn next_player(&mut self)
        requires
            old(self).wf(),
            applicable(old(self)@, EffectModel::NextPlayer),
        ensures
            final(self).wf(),
            final(self)@ == apply(old(self)@, EffectModel::NextPlayer),
    {
        match self.status {
            Status::Playing(i) => {
                let n = self.players.len();
                assert(i < n);
                if i + 1 < n {
                    self.status = Status::Playing(i + 1);
                } else {
                    self.status = Status::DealerTurn;
                }
            },
            Status::Dealing => {
                self.status = Status::Playing(0);
            },
            _ => {},
        }
    }

    /// The table as it is shown, as `board_text` describes.
    pub fn describe(&self) -> (r: String)
        requires
            self.wf(),
        ensures
            r@ == board_text(self@),
    {
        let mut r = self.dealer.describe();
        r.append("\n");
        let mut i: usize = 0;
        while i < self.players.len()
            invariant
                self.wf(),
                i <= self.players@.len(),
                r@ == player_line(self@.dealer) + "\n"@ + player_lines(self@.players.take(i as int)),
            decreases self.players@.len() - i,
        {
            assert(self@.players.take(i + 1).drop_last() =~= self@.players.take(i as int));
            assert(self@.players[i as int] == self.players@[i as int]@);
            r.append(self.players[i].describe().as_str());
            r.append("\n");
            i = i + 1;
        }
        assert(self@.players.take(i as int) =~= self@.players);
        r
    }

    /// The player whose turn it is, while turns are being taken.
    pub fn get_current_player(&self) -> (r: Option<&Player>)
        requires
            self.wf(),
        ensures
            self@.phase matches Status::Playing(i) ==> r is Some && r->Some_0@ == self@.players[i as int],
            !(self@.phase is Playing) ==> r is None,
    {
        match self.status {
            Status::Playing(i) => {
                assert(self@.players[i as int] == self.players@[i as int]@);
                Some(&self.players[i])
            },
            _ => None,
        }
    }

    /// The names in turn order.
    pub fn get_player_order(&self) -> (r: Vec<String>)
        ensures
            names_of(r@) == turn_order(self@.players),
    {
        let mut r: Vec<String> = Vec::new();
        let mut i: usize = 0;
        while i < self.players.len()
            invariant
                i <= self.players@.len(),
                r@.len() == i,
                forall|k: int| 0 <= k < i ==> (#[trigger] r@[k])@ == self@.players[k].name,
            decreases self.players@.len() - i,
        {
            assert(self@.players[i as int] == self.players@[i as int]@);
            r.push(self.players[i].name());
            i = i + 1;
        }
        assert(names_of(r@) =~= turn_order(self@.players));
        r
    }

    pub fn get_player_count(&self) -> (r: usize)
        ensures
            r == self@.players.len(),
    {
        self.players.len()
    }

    pub fn get_player(&self, name: &String) -> (r: Option<&Player>)
        requires
            self.wf(),
        ensures
            r is Some <==> has_name(self@.players, name@),
            r is Some ==> r->Some_0@ == self@.players[index_of(self@.players, name@)],
    {
        match self.find(name) {
            Some(i) => {
                assert(self@.players[i as int] == self.players@[i as int]@);
                Some(&self.players[i])
            },
            None => None,
        }
    }

    pub fn get_dealer(&self) -> (r: &Player)
        ensures
            r@ == self@.dealer,
    {
        &self.dealer
    }

    /// The dealer's cards; with `hide`, the second one shows face down.
    pub fn get_dealer_hands(&self, hide: bool) -> (r: Vec<Card>)
        requires
            hide ==> self@.dealer.hand.len() >= 2,
        ensures
            r@ == if hide {
                self@.dealer.hand.update(1, hidden_card())
            } else {
                self@.dealer.hand
            },
    {
        self.dealer.get_hands(hide)
    }

    pub fn get_dealer_score(&self) -> (r: u32)
        requires
            self.wf(),
        ensures
            r as nat == hand_score(self@.dealer.hand),
    {
        self.dealer.get_score()
    }

    pub fn get_status(&self) -> (r: Status)
        ensures
            r == self@.phase,
    {
        self.status
    }

    pub fn is_betting(&self) -> (r: bool)
        ensures
            r == (self@.phase == Status::Betting),
    {
        self.status == Status::Betting
    }

    pub fn is_dealer_turn(&self) -> (r: bool)
        ensures
            r == (self@.phase == Status::DealerTurn),
    {
        self.status == Status::DealerTurn
    }

    pub fn has_player(&self, name: &String) -> (r: bool)
        requires
            self.wf(),
        ensures
            r == has_name(self@.players, name@),
    {
        self.find(name).is_some()
    }

    pub fn is_started(&self) -> (r: bool)
        ensures
            r == (self@.phase != Status::Betting),
    {
        self.status != Status::Betting
    }

    pub fn is_finished(&self) -> (r: bool)
        ensures
            r == (self@.phase == Status::End),
    {
        self.status == Status::End
    }

    /// For each player in turn order: the name, the payout against the dealer's hand, and
    /// the net gain.
    pub fn get_result(&self) -> (r: Vec<(String, u64, i64)>)
        requires
            self.wf(),
        ensures
            r@.len() == self@.players.len(),
            forall|i: int|
                0 <= i < r@.len() ==> (#[trigger] r@[i]).0@ == self@.players[i].name && r@[i].1
                    == payout(
                    hand_score(self@.players[i].hand),
                    hand_score(self@.dealer.hand),
                    self@.players[i].amount as nat,
                ) && r@[i].2 == r@[i].1 - self@.players[i].amount,
    {
        let dealer_score = self.dealer.get_score();
        let mut r: Vec<(String, u64, i64)> = Vec::new();
        let mut i: usize = 0;
        while i < self.players.len()
            invariant
                self.wf(),
                dealer_score as nat == hand_score(self@.dealer.hand),
                i <= self.players@.len(),
                r@.len() == i,
                forall|k: int|
                    0 <= k < i ==> (#[trigger] r@[k]).0@ == self@.players[k].name && r@[k].1
                        == payout(
                        hand_score(self@.players[k].hand),
                        hand_score(self@.dealer.hand),
                        self@.players[k].amount as nat,
                    ) && r@[k].2 == r@[k].1 - self@.players[k].amount,
            decreases self.players@.len() - i,
        {
            let p = &self.players[i];
            assert(self@.players[i as int] == p@);
            let (paid, net) = settle(p.get_score(), dealer_score, p.get_amount());
            r.push((p.name(), paid, net));
            i = i + 1;
        }
        r
    }

    /// For each player in turn order: the name and the wager.
    pub fn get_amounts(&self) -> (r: Vec<(String, u32)>)
        ensures
            r@.len() == self@.players.len(),
            forall|i: int|
                0 <= i < r@.len() ==> (#[trigger] r@[i]).0@ == self@.players[i].name && r@[i].1
                    == self@.players[i].amount,
    {
        let mut r: Vec<(String, u32)> = Vec::new();
        let mut i: usize = 0;
        while i < self.players.len()
            invariant
                i <= self.players@.len(),
                r@.len() == i,
                forall|k: int|
                    0 <= k < i ==> (#[trigger] r@[k]).0@ == self@.players[k].name && r@[k].1
                        == self@.players[k].amount,
            decreases self.players@.len() - i,
        {
            let p = &self.players[i];
            assert(self@.players[i as int] == p@);
            r.push((p.name(), p.get_amount()));
            i = i + 1;
        }
        r
    }

    /// The index of the player called `name`.
    fn find(&self, name: &String) -> (r: Option<usize>)
        requires
            self.wf(),
        ensures
            r is None <==> !has_name(self@.players, name@),
            r matches Some(i) ==> i < self@.players.len() && self@.players[i as int].name == name@
                && index_of(self@.players, name@) == i,
    {
        let mut i: usize = 0;
        while i < self.players.len()
            invariant
                self.wf(),
                i <= self.players@.len(),
                forall|k: int| 0 <= k < i ==> (#[trigger] self@.players[k]).name != name@,
            decreases self.players@.len() - i,
        {
            assert(self@.players[i as int] == self.players@[i as int]@);
            if self.players[i].is_named(name) {
                proof {
                    lemma_index_of(self@.players, i as int);
                }
                return Some(i);
            }
            i = i + 1;
        }
        None
    }
}



pub proof fn lemma_replay_push(m: StateModel, effects: Seq<EffectModel>, e: EffectModel)
    ensures
        replay(m, effects.push(e)) == apply(replay(m, effects), e),
{
    assert(effects.push(e).drop_last() =~= effects);
}

/// Folding two lists one after the other is folding their concatenation.
pub proof fn lemma_replay_concat(m: StateModel, a: Seq<EffectModel>, b: Seq<EffectModel>)
    ensures
        replay(m, a + b) == replay(replay(m, a), b),
    decreases b.len(),
{
    if b.len() == 0 {
        assert(a + b =~= a);
    } else {
        lemma_replay_concat(m, a, b.drop_last());
        assert((a + b).drop_last() =~= a + b.drop_last());
    }
}

pub proof fn lemma_effects_model_push(v: Seq<Effect>, e: Effect)
    ensures
        effects_model(v.push(e)) == effects_model(v).push(e@),
{
    assert(effects_model(v.push(e)) =~= effects_model(v).push(e@));
}

} // verus!
