use vstd::prelude::*;
use crate::card::Card;
use crate::deck::{deck_wf, next_draws, Deck, DECK_SIZE};
use crate::player::{hand_score, score_of, MAX_HAND_CARDS};
use crate::state::{
    applicable, apply, dealt_of, effects_model, has_name, hidden_card, index_of,
    lemma_effects_model_push, lemma_replay_concat, lemma_replay_push, model_wf, names_of, replay,
    turn_order, Effect, EffectModel, State, StateModel, Status,
};
use crate::text::{decimal, push_decimal};

verus! {

/// Why a command was refused.
#[derive(Debug, Clone, Copy, PartialEq, Eq, Structural)]
pub enum TableError {
    /// The command is not allowed at this stage of the round.
    WrongPhase,
    /// It is another player's turn.
    NotYourTurn,
    /// No player of that name sits at the table.
    UnknownPlayer,
    /// A player of that name already sits at the table.
    DuplicateName,
    /// A round cannot start without players.
    NoPlayers,
    /// The wager would exceed what a wager can hold.
    WagerTooLarge,
    /// The deck has too few cards left.
    DeckExhausted,
}

/// A table as contracts see it: the projection, the deck, and the dealer's hole card
/// while it is face down.
pub struct TableModel {
    pub state: StateModel,
    pub deck: Seq<Card>,
    pub hole: Option<Card>,
}

/// A command's outcome as contracts see it.
pub open spec fn outcome(r: Result<Vec<Effect>, TableError>) -> Result<Seq<EffectModel>, TableError> {
    match r {
        Ok(v) => Ok(effects_model(v@)),
        Err(e) => Err(e),
    }
}

/// Whether a state is in a stage where the dealer's second card is face down.
pub open spec fn hole_pending(phase: Status) -> bool {
    phase is Playing || phase == Status::DealerTurn
}

/// The table's invariant: the projection and the deck are well formed; no hand and the
/// deck together hold more than a deck; while betting nobody holds cards; while the
/// hole card is face down the dealer has two cards and the table keeps the hidden one.
pub open spec fn table_wf(t: TableModel) -> bool {
    &&& model_wf(t.state)
    &&& deck_wf(t.deck)
    &&& forall|i: int|
        0 <= i < t.state.players.len() ==> (#[trigger] t.state.players[i]).hand.len()
            + t.deck.len() <= DECK_SIZE
    &&& t.state.dealer.hand.len() + t.deck.len() <= DECK_SIZE
    &&& t.state.phase == Status::Betting ==> t.state.dealer.hand.len() == 0 && forall|i: int|
        0 <= i < t.state.players.len() ==> (#[trigger] t.state.players[i]).hand.len() == 0
    &&& hole_pending(t.state.phase) ==> t.hole is Some && t.state.dealer.hand.len() >= 2
}

/// Whose turn it is, if anyone's.
pub open spec fn current_name(s: StateModel) -> Option<Seq<char>> {
    match s.phase {
        Status::Playing(i) => Some(s.players[i as int].name),
        _ => None,
    }
}

/// The turn guard of `hit` and `stand`: nothing but the current player's own command passes.
pub open spec fn turn_error(s: StateModel, name: Seq<char>) -> Option<TableError> {
    match current_name(s) {
        None => Some(TableError::WrongPhase),
        Some(n) => if n != name {
            Some(TableError::NotYourTurn)
        } else {
            None
        },
    }
}

/// What `participate` does.
pub open spec fn participate_post(
    t0: TableModel,
    t1: TableModel,
    name: Seq<char>,
    r: Result<Seq<EffectModel>, TableError>,
) -> bool {
    if t0.state.phase != Status::Betting {
        r == Err::<Seq<EffectModel>, TableError>(TableError::WrongPhase) && t1 == t0
    } else if has_name(t0.state.players, name) {
        r == Err::<Seq<EffectModel>, TableError>(TableError::DuplicateName) && t1 == t0
    } else {
        r == Ok::<Seq<EffectModel>, TableError>(seq![EffectModel::AddPlayer(name)]) && t1 == (
        TableModel { state: apply(t0.state, EffectModel::AddPlayer(name)), ..t0 })
    }
}

/// What `leave` does.
pub open spec fn leave_post(
    t0: TableModel,
    t1: TableModel,
    name: Seq<char>,
    r: Result<Seq<EffectModel>, TableError>,
) -> bool {
    if t0.state.phase != Status::Betting {
        r == Err::<Seq<EffectModel>, TableError>(TableError::WrongPhase) && t1 == t0
    } else if !has_name(t0.state.players, name) {
        r == Err::<Seq<EffectModel>, TableError>(TableError::UnknownPlayer) && t1 == t0
    } else {
        r == Ok::<Seq<EffectModel>, TableError>(seq![EffectModel::RemovePlayer(name)]) && t1 == (
        TableModel { state: apply(t0.state, EffectModel::RemovePlayer(name)), ..t0 })
    }
}

/// What `bet` does.
pub open spec fn bet_post(
    t0: TableModel,
    t1: TableModel,
    name: Seq<char>,
    amount: u32,
    r: Result<Seq<EffectModel>, TableError>,
) -> bool {
    if t0.state.phase != Status::Betting {
        r == Err::<Seq<EffectModel>, TableError>(TableError::WrongPhase) && t1 == t0
    } else if !has_name(t0.state.players, name) {
        r == Err::<Seq<EffectModel>, TableError>(TableError::UnknownPlayer) && t1 == t0
    } else if t0.state.players[index_of(t0.state.players, name)].amount + amount > u32::MAX {
        r == Err::<Seq<EffectModel>, TableError>(TableError::WagerTooLarge) && t1 == t0
    } else {
        r == Ok::<Seq<EffectModel>, TableError>(seq![EffectModel::Bet(name, amount)]) && t1 == (
        TableModel { state: apply(t0.state, EffectModel::Bet(name, amount)), ..t0 })
    }
}

/// What `stand` does.
pub open spec fn stand_post(
    t0: TableModel,
    t1: TableModel,
    name: Seq<char>,
    r: Result<Seq<EffectModel>, TableError>,
) -> bool {
    if turn_error(t0.state, name) is Some {
        r == Err::<Seq<EffectModel>, TableError>(turn_error(t0.state, name)->Some_0) && t1 == t0
    } else {
        r == Ok::<Seq<EffectModel>, TableError>(seq![EffectModel::NextPlayer]) && t1 == (
        TableModel { state: apply(t0.state, EffectModel::NextPlayer), ..t0 })
    }
}

/// The effects of a hit that draws `card`: the card, and when the hand busts, the bust
/// and the turn passing on.
pub open spec fn hit_effects(s: StateModel, name: Seq<char>, card: Card) -> Seq<EffectModel> {
    let s1 = apply(s, EffectModel::AddCard(name, card));
    if hand_score(s1.players[index_of(s1.players, name)].hand) > 21 {
        seq![EffectModel::AddCard(name, card), EffectModel::Burst(name), EffectModel::NextPlayer]
    } else {
        seq![EffectModel::AddCard(name, card)]
    }
}

/// What `hit` does.
pub open spec fn hit_post(
    t0: TableModel,
    t1: TableModel,
    name: Seq<char>,
    r: Result<Seq<EffectModel>, TableError>,
) -> bool {
    if turn_error(t0.state, name) is Some {
        r == Err::<Seq<EffectModel>, TableError>(turn_error(t0.state, name)->Some_0) && t1 == t0
    } else if t0.deck.len() == 0 {
        r == Err::<Seq<EffectModel>, TableError>(TableError::DeckExhausted) && t1 == t0
    } else {
        let effects = hit_effects(t0.state, name, t0.deck.last());
        r == Ok::<Seq<EffectModel>, TableError>(effects) && t1 == (TableModel {
            state: replay(t0.state, effects),
            deck: t0.deck.drop_last(),
            ..t0
        })
    }
}

/// The cards of an opening deal from `deck` to the players `names`: one card to each
/// player in turn order, one to the dealer, then a second round the same way. Draws take
/// from the end of the deck.
pub open spec fn opening_deal(names: Seq<Seq<char>>, deck: Seq<Card>) -> Seq<(Seq<char>, Card, Card)> {
    let n = names.len();
    let l = deck.len();
    Seq::new(n, |i: int| (names[i], deck[l - 1 - i], deck[l - 2 - n - i]))
}

/// The dealer's first card of an opening deal to `n` players.
pub open spec fn dealer_up_card(n: nat, deck: Seq<Card>) -> Card {
    deck[deck.len() - 1 - n]
}

/// The dealer's second card of an opening deal to `n` players.
pub open spec fn dealer_hole_card(n: nat, deck: Seq<Card>) -> Card {
    deck[deck.len() - 2 - 2 * n]
}

pub open spec fn opening_blackjack(n: nat, deck: Seq<Card>) -> bool {
    hand_score(seq![dealer_up_card(n, deck), dealer_hole_card(n, deck)]) == 21
}

/// The effects of a start: the round starts, the cards are dealt (the dealer's second one
/// face down), and the first player's turn comes; or, when the dealer's two cards make
/// 21, they are dealt face up and the round ends at once.
pub open spec fn start_effects(s: StateModel, deck: Seq<Card>) -> Seq<EffectModel> {
    let n = s.players.len();
    let dealt = opening_deal(turn_order(s.players), deck);
    let up = dealer_up_card(n, deck);
    if opening_blackjack(n, deck) {
        seq![
            EffectModel::Start,
            EffectModel::Deal(dealt, up, dealer_hole_card(n, deck)),
            EffectModel::DealerBlackjack,
            EffectModel::Finish,
        ]
    } else {
        seq![EffectModel::Start, EffectModel::Deal(dealt, up, hidden_card()), EffectModel::NextPlayer]
    }
}

/// What `start` does.
pub open spec fn start_post(t0: TableModel, t1: TableModel, r: Result<Seq<EffectModel>, TableError>) -> bool {
    let n = t0.state.players.len();
    if t0.state.phase != Status::Betting {
        r == Err::<Seq<EffectModel>, TableError>(TableError::WrongPhase) && t1 == t0
    } else if n == 0 {
        r == Err::<Seq<EffectModel>, TableError>(TableError::NoPlayers) && t1 == t0
    } else if t0.deck.len() < 2 * n + 2 {
        r == Err::<Seq<EffectModel>, TableError>(TableError::DeckExhausted) && t1 == t0
    } else {
        let effects = start_effects(t0.state, t0.deck);
        r == Ok::<Seq<EffectModel>, TableError>(effects) && t1 == (TableModel {
            state: replay(t0.state, effects),
            deck: t0.deck.subrange(0, t0.deck.len() - (2 * n + 2)),
            hole: if opening_blackjack(n, t0.deck) {
                None
            } else {
                Some(dealer_hole_card(n, t0.deck))
            },
        })
    }
}

/// How many cards the dealer draws from `deck` onto `hand`: until the score reaches 17,
/// or the deck runs out.
pub open spec fn dealer_draw_count(hand: Seq<Card>, deck: Seq<Card>) -> nat
    decreases deck.len(),
{
    if hand_score(hand) >= 17 || deck.len() == 0 {
        0
    } else {
        1 + dealer_draw_count(hand.push(deck.last()), deck.drop_last())
    }
}

pub open spec fn dealer_card_effects(cards: Seq<Card>) -> Seq<EffectModel> {
    cards.map_values(|c: Card| EffectModel::AddDealerCard(c))
}

/// The effects of the dealer's turn: the hole card turns over, the drawn cards, a bust
/// if the dealer went over 21, and the end of the round.
pub open spec fn dealer_effects(opened: Seq<Card>, hole: Card, deck: Seq<Card>) -> Seq<EffectModel> {
    let drawn = next_draws(deck, dealer_draw_count(opened, deck));
    seq![EffectModel::OpenDealerCard(hole)] + dealer_card_effects(drawn) + if hand_score(
        opened + drawn,
    ) > 21 {
        seq![EffectModel::DealerBurst]
    } else {
        Seq::<EffectModel>::empty()
    } + seq![EffectModel::Finish]
}

/// What `dealer_action` does. When the deck runs out before the dealer reaches 17, the
/// round cannot be finished; the table is then only known to be well formed.
pub open spec fn dealer_action_post(
    t0: TableModel,
    t1: TableModel,
    r: Result<Seq<EffectModel>, TableError>,
) -> bool {
    if t0.state.phase != Status::DealerTurn {
        r == Err::<Seq<EffectModel>, TableError>(TableError::WrongPhase) && t1 == t0
    } else {
        let hole = t0.hole->Some_0;
        let opened = t0.state.dealer.hand.update(1, hole);
        let k = dealer_draw_count(opened, t0.deck);
        if hand_score(opened + next_draws(t0.deck, k)) < 17 {
            r == Err::<Seq<EffectModel>, TableError>(TableError::DeckExhausted)
        } else {
            let effects = dealer_effects(opened, hole, t0.deck);
            r == Ok::<Seq<EffectModel>, TableError>(effects) && t1 == (TableModel {
                state: replay(t0.state, effects),
                deck: t0.deck.subrange(0, t0.deck.len() - k),
                hole: None,
            })
        }
    }
}

/// The deal entries: each name with its two cards.
fn build_dealt(
    order: &Vec<String>,
    first: &Vec<Card>,
    second: &Vec<Card>,
    names: Ghost<Seq<Seq<char>>>,
) -> (r: Vec<(String, Card, Card)>)
    requires
        names_of(order@) == names@,
        first@.len() == order@.len(),
        second@.len() == order@.len(),
    ensures
        dealt_of(r@) == Seq::new(order@.len(), |k: int| (names@[k], first@[k], second@[k])),
{
    let n = order.len();
    assert(names_of(order@).len() == order@.len());
    let mut dealt: Vec<(String, Card, Card)> = Vec::new();
    let mut i: usize = 0;
    while i < n
        invariant
            n == order@.len(),
            names_of(order@) == names@,
            first@.len() == n,
            second@.len() == n,
            i <= n,
            dealt@.len() == i,
            forall|k: int|
                0 <= k < i ==> (#[trigger] dealt@[k]).0@ == names@[k] && dealt@[k].1 == first@[k]
                    && dealt@[k].2 == second@[k],
        decreases n - i,
    {
        assert(names_of(order@)[i as int] == order@[i as int]@);
        dealt.push((order[i].clone(), first[i], second[i]));
        i = i + 1;
    }
    assert(dealt_of(dealt@) =~= Seq::new(order@.len(), |k: int| (names@[k], first@[k], second@[k])));
    dealt
}

/// A player's command, already resolved to the player's name.
#[derive(Debug, Clone)]
pub enum Command {
    Ping(String),
    Participate(String),
    Leave(String),
    Bet(String, u32),
    Hit(String),
    Stand(String),
}

/// What a command does, as `Table::apply_command` carries it out.
pub open spec fn command_post(
    t0: TableModel,
    t1: TableModel,
    command: Command,
    r: Result<Seq<EffectModel>, TableError>,
) -> bool {
    match command {
        Command::Ping(_) => r == Ok::<Seq<EffectModel>, TableError>(Seq::empty()) && t1 == t0,
        Command::Participate(n) => participate_post(t0, t1, n@, r),
        Command::Leave(n) => leave_post(t0, t1, n@, r),
        Command::Bet(n, a) => bet_post(t0, t1, n@, a, r),
        Command::Hit(n) => hit_post(t0, t1, n@, r),
        Command::Stand(n) => stand_post(t0, t1, n@, r),
    }
}

/// The acknowledgement of a command that succeeded.
pub open spec fn success_text(c: Command) -> Seq<char> {
    match c {
        Command::Ping(name) => "pong, "@ + name@,
        Command::Participate(name) => name@ + "さんが参加しました。"@,
        Command::Leave(name) => name@ + "さんが退出しました。"@,
        Command::Bet(name, amount) => name@ + "さんが"@ + decimal(amount as nat) + "コイン賭けました。"@,
        Command::Hit(name) => name@ + "さんがヒットしました。"@,
        Command::Stand(name) => name@ + "さんがスタンドしました。"@,
    }
}

/// The reply to a command that was refused.
pub open spec fn error_text(e: TableError) -> Seq<char> {
    match e {
        TableError::WrongPhase => "This is not possible at this stage of the round"@,
        TableError::NotYourTurn => "It's not your turn"@,
        TableError::UnknownPlayer => "Player does not exist"@,
        TableError::DuplicateName => "Player already exists"@,
        TableError::NoPlayers => "No player"@,
        TableError::WagerTooLarge => "The wager is too large"@,
        TableError::DeckExhausted => "Deck is empty"@,
    }
}

impl Command {
    /// The acknowledgement sent back to the player when the command succeeds.
    pub fn success_message(&self) -> (r: String)
        ensures
            r@ == success_text(*self),
    {
        match self {
            Command::Ping(name) => {
                let mut r = String::from_str("pong, ");
                r.append(name.as_str());
                r
            },
            Command::Participate(name) => name.clone().concat("さんが参加しました。"),
            Command::Leave(name) => name.clone().concat("さんが退出しました。"),
            Command::Bet(name, amount) => {
                let mut r = name.clone().concat("さんが");
                push_decimal(&mut r, *amount);
                r.append("コイン賭けました。");
                r
            },
            Command::Hit(name) => name.clone().concat("さんがヒットしました。"),
            Command::Stand(name) => name.clone().concat("さんがスタンドしました。"),
        }
    }
}

impl TableError {
    /// The text sent back to the player whose command was refused.
    pub fn message(&self) -> (r: &'static str)
        ensures
            r@ == error_text(*self),
    {
        match self {
            TableError::WrongPhase => "This is not possible at this stage of the round",
            TableError::NotYourTurn => "It's not your turn",
            TableError::UnknownPlayer => "Player does not exist",
            TableError::DuplicateName => "Player already exists",
            TableError::NoPlayers => "No player",
            TableError::WagerTooLarge => "The wager is too large",
            TableError::DeckExhausted => "Deck is empty",
        }
    }
}

/// The text sent back to a command's issuer.
#[derive(Debug)]
pub struct Response {
    pub content: String,
}

impl Response {
    /// The acknowledgement of `command` when it succeeded, else why it was refused.
    pub fn new(command: &Command, r: &Result<Vec<Effect>, TableError>) -> (res: Response)
        ensures
            res.content@ == match r {
                Ok(_) => success_text(*command),
                Err(e) => error_text(*e),
            },
    {
        let content = match r {
            Ok(_) => command.success_message(),
            Err(e) => String::from_str(e.message()),
        };
        Response { content }
    }
}

/// What happens when the betting time runs out.
#[derive(Debug)]
pub enum TimerOutcome {
    /// The round had already started: nothing happens.
    Ignored,
    /// Nobody sat down: the table closes with these effects.
    Closed(Vec<Effect>),
    /// The round started with these effects.
    Started(Vec<Effect>),
    /// The round could not start.
    Failed(TableError),
}

/// Turn enforcement: while turns are being taken, a `hit` or a `stand` by anyone but the
/// player whose turn it is fails with `NotYourTurn`, returns no effects and leaves the
/// table as it was.
pub proof fn lemma_turn_enforced(
    t0: TableModel,
    t1: TableModel,
    name: Seq<char>,
    r: Result<Seq<EffectModel>, TableError>,
    i: usize,
)
    requires
        t0.state.phase == Status::Playing(i),
        name != t0.state.players[i as int].name,
        hit_post(t0, t1, name, r) || stand_post(t0, t1, name, r),
    ensures
        r == Err::<Seq<EffectModel>, TableError>(TableError::NotYourTurn),
        t1 == t0,
{
}

/// Replay equivalence: when each batch of effects took the table's projection from one
/// state to the next (as every batch that `Table` returns does), folding all the batches,
/// one after another, into the first state gives the last one. An observer that starts
/// from the same projection and folds every effect it receives, in order, ends in the
/// table's own state.
pub proof fn lemma_replay_batches(states: Seq<StateModel>, batches: Seq<Seq<EffectModel>>)
    requires
        states.len() == batches.len() + 1,
        forall|i: int|
            0 <= i < batches.len() ==> states[i + 1] == replay(states[i], #[trigger] batches[i]),
    ensures
        replay(states[0], batches.flatten()) == states.last(),
    decreases batches.len(),
{
    batches.lemma_flatten_and_flatten_alt_are_equivalent();
    if batches.len() > 0 {
        let rest = batches.drop_last();
        assert forall|i: int| 0 <= i < rest.len() implies states.drop_last()[i + 1] == replay(
            states.drop_last()[i],
            #[trigger] rest[i],
        ) by {
            assert(rest[i] == batches[i]);
        }
        lemma_replay_batches(states.drop_last(), rest);
        rest.lemma_flatten_and_flatten_alt_are_equivalent();
        lemma_replay_concat(states[0], rest.flatten_alt(), batches.last());
        assert(states[batches.len() as int] == replay(states[batches.len() - 1], batches.last()));
    }
}

pub struct Table {
    state: State,
    deck: Deck,
    hole: Option<Card>,
}

impl View for Table {
    type V = TableModel;

    closed spec fn view(&self) -> TableModel {
        TableModel { state: self.state@, deck: self.deck@, hole: self.hole }
    }
}

impl Table {
    pub open spec fn wf(&self) -> bool {
        table_wf(self@)
    }

    /// An empty table in `Betting`, with a full deck in an order left to chance.
    pub fn new() -> (r: Table)
        ensures
            r.wf(),
            r@.state.players.len() == 0,
            r@.state.dealer.hand.len() == 0,
            r@.state.dealer.amount == 0,
            r@.state.phase == Status::Betting,
            r@.deck.len() == DECK_SIZE,
            r@.hole is None,
    {
        let mut deck = Deck::new();
        deck.shuffle();
        let r = Table { state: State::new(), deck, hole: None };
        r
    }

    /// An empty table in `Betting` that deals from `deck` as it stands.
    pub fn with_deck(deck: Deck) -> (r: Table)
        requires
            deck.wf(),
        ensures
            r.wf(),
            r@.state.players.len() == 0,
            r@.state.dealer.hand.len() == 0,
            r@.state.dealer.amount == 0,
            r@.state.phase == Status::Betting,
            r@.deck == deck@,
            r@.hole is None,
    {
        Table { state: State::new(), deck, hole: None }
    }

    /// Seats the given players, without cards or wagers, for a new round in `Betting`.
    /// Refused when a name comes twice.
    pub fn init_players(&mut self, players: Vec<String>) -> (r: Result<Vec<Effect>, TableError>)
        requires
            old(self).wf(),
        ensures
            final(self).wf(),
            !names_of(players@).no_duplicates() ==> r == Err::<Vec<Effect>, TableError>(
                TableError::DuplicateName,
            ) && final(self)@ == old(self)@,
            names_of(players@).no_duplicates() ==> r is Ok && outcome(r) == Ok::<
                Seq<EffectModel>,
                TableError,
            >(seq![EffectModel::Init(names_of(players@))]) && final(self)@ == (TableModel {
                state: apply(old(self)@.state, EffectModel::Init(names_of(players@))),
                hole: None,
                ..old(self)@
            }),
    {
        let effect = Effect::Init(players);
        if !self.state.can_apply(&effect) {
            return Err(TableError::DuplicateName);
        }
        let ghost t0 = self@;
        let mut effects: Vec<Effect> = Vec::new();
        self.hole = None;
        self.emit(&mut effects, effect, Ghost(t0.state));
        assert(effects_model(effects@) =~= seq![effect@]);
        Ok(effects)
    }

    /// Applies `effect` to the projection and records it. When the projection was what
    /// the recorded effects make of `base`, it still is.
    fn emit(&mut self, effects: &mut Vec<Effect>, effect: Effect, base: Ghost<StateModel>)
        requires
            old(self).state.wf(),
            applicable(old(self)@.state, effect@),
        ensures
            final(self).state.wf(),
            final(self)@ == (TableModel { state: apply(old(self)@.state, effect@), ..old(self)@ }),
            effects_model(final(effects)@) == effects_model(old(effects)@).push(effect@),
            old(self)@.state == replay(base@, effects_model(old(effects)@)) ==> final(self)@.state
                == replay(base@, effects_model(final(effects)@)),
    {
        let copy = effect.duplicate();
        self.state.apply_effect(effect);
        proof {
            lemma_effects_model_push(effects@, copy);
            lemma_replay_push(base@, effects_model(effects@), copy@);
        }
        effects.push(copy);
    }

    pub fn participate(&mut self, name: String) -> (r: Result<Vec<Effect>, TableError>)
        requires
            old(self).wf(),
        ensures
            final(self).wf(),
            participate_post(old(self)@, final(self)@, name@, outcome(r)),
    {
        if !self.state.is_betting() {
            return Err(TableError::WrongPhase);
        }
        if self.state.has_player(&name) {
            return Err(TableError::DuplicateName);
        }
        let ghost t0 = self@;
        let ghost n = name@;
        let mut effects: Vec<Effect> = Vec::new();
        self.emit(&mut effects, Effect::AddPlayer(name), Ghost(t0.state));
        assert(effects_model(effects@) =~= seq![EffectModel::AddPlayer(n)]);
        proof {
            let s1 = self@.state;
            assert forall|i: int| 0 <= i < s1.players.len() implies (#[trigger] s1.players[i]).hand.len()
                == 0 by {
                if i < t0.state.players.len() {
                    assert(s1.players[i] == t0.state.players[i]);
                }
            }
        }
        Ok(effects)
    }

    pub fn leave(&mut self, name: &String) -> (r: Result<Vec<Effect>, TableError>)
        requires
            old(self).wf(),
        ensures
            final(self).wf(),
            leave_post(old(self)@, final(self)@, name@, outcome(r)),
    {
        if !self.state.is_betting() {
            return Err(TableError::WrongPhase);
        }
        if !self.state.has_player(name) {
            return Err(TableError::UnknownPlayer);
        }
        let ghost t0 = self@;
        let mut effects: Vec<Effect> = Vec::new();
        self.emit(&mut effects, Effect::RemovePlayer(name.clone()), Ghost(t0.state));
        assert(effects_model(effects@) =~= seq![EffectModel::RemovePlayer(name@)]);
        proof {
            let s1 = self@.state;
            let i = index_of(t0.state.players, name@);
            assert forall|k: int| 0 <= k < s1.players.len() implies (#[trigger] s1.players[k]).hand.len()
                + self@.deck.len() <= DECK_SIZE && s1.players[k].hand.len() == 0 by {
                let k2 = if k < i { k } else { k + 1 };
                assert(s1.players[k] == t0.state.players[k2]);
            }
        }
        Ok(effects)
    }

    pub fn bet(&mut self, name: &String, amount: u32) -> (r: Result<Vec<Effect>, TableError>)
        requires
            old(self).wf(),
        ensures
            final(self).wf(),
            bet_post(old(self)@, final(self)@, name@, amount, outcome(r)),
    {
        if !self.state.is_betting() {
            return Err(TableError::WrongPhase);
        }
        let wager = match self.state.get_player(name) {
            Some(p) => p.get_amount(),
            None => return Err(TableError::UnknownPlayer),
        };
        if wager as u64 + amount as u64 > u32::MAX as u64 {
            return Err(TableError::WagerTooLarge);
        }
        let ghost t0 = self@;
        let mut effects: Vec<Effect> = Vec::new();
        self.emit(&mut effects, Effect::Bet(name.clone(), amount), Ghost(t0.state));
        assert(effects_model(effects@) =~= seq![EffectModel::Bet(name@, amount)]);
        proof {
            let s1 = self@.state;
            let i = index_of(t0.state.players, name@);
            assert forall|k: int| 0 <= k < s1.players.len() implies (#[trigger] s1.players[k]).hand.len()
                == t0.state.players[k].hand.len() by {
                if k != i {
                    assert(s1.players[k] == t0.state.players[k]);
                }
            }
        }
        Ok(effects)
    }

    /// Checks that it is `name`'s turn.
    fn check_turn(&self, name: &String) -> (r: Result<(), TableError>)
        requires
            self.state.wf(),
        ensures
            turn_error(self@.state, name@) is None <==> r is Ok,
            r matches Err(e) ==> turn_error(self@.state, name@) == Some(e),
    {
        match self.state.get_current_player() {
            Some(player) => {
                if !player.is_named(name) {
                    return Err(TableError::NotYourTurn);
                }
            },
            None => return Err(TableError::WrongPhase),
        }
        Ok(())
    }

    pub fn stand(&mut self, name: &String) -> (r: Result<Vec<Effect>, TableError>)
        requires
            old(self).wf(),
        ensures
            final(self).wf(),
            stand_post(old(self)@, final(self)@, name@, outcome(r)),
    {
        match self.check_turn(name) {
            Err(e) => return Err(e),
            Ok(()) => {},
        }
        let ghost t0 = self@;
        let mut effects: Vec<Effect> = Vec::new();
        self.emit(&mut effects, Effect::NextPlayer, Ghost(t0.state));
        assert(effects_model(effects@) =~= seq![EffectModel::NextPlayer]);
        Ok(effects)
    }

    pub fn hit(&mut self, name: &String) -> (r: Result<Vec<Effect>, TableError>)
        requires
            old(self).wf(),
        ensures
            final(self).wf(),
            hit_post(old(self)@, final(self)@, name@, outcome(r)),
    {
        match self.check_turn(name) {
            Err(e) => return Err(e),
            Ok(()) => {},
        }
        let ghost t0 = self@;
        let i = match self.state.get_status() {
            Status::Playing(i) => i,
            _ => 0,
        };
        proof {
            crate::state::lemma_index_of(t0.state.players, i as int);
        }
        let card = match self.deck.draw() {
            Some(card) => card,
            None => return Err(TableError::DeckExhausted),
        };
        let mut effects: Vec<Effect> = Vec::new();
        self.emit(&mut effects, Effect::AddCard(name.clone(), card), Ghost(t0.state));
        proof {
            let s1 = self@.state;
            assert forall|k: int| 0 <= k < s1.players.len() implies (#[trigger] s1.players[k]).hand.len()
                + self@.deck.len() <= DECK_SIZE by {
                if k != i {
                    assert(s1.players[k] == t0.state.players[k]);
                }
            }
            crate::state::lemma_index_of(s1.players, i as int);
        }
        let score = match self.state.get_current_player() {
            Some(p) => p.get_score(),
            None => 0,
        };
        if score > 21 {
            self.emit(&mut effects, Effect::Burst(name.clone()), Ghost(t0.state));
            self.emit(&mut effects, Effect::NextPlayer, Ghost(t0.state));
            assert(effects_model(effects@) =~= hit_effects(t0.state, name@, card));
        } else {
            assert(effects_model(effects@) =~= hit_effects(t0.state, name@, card));
        }
        Ok(effects)
    }

    /// Draws an opening deal for `n` players: their first cards, the dealer's first card,
    /// their second cards, the dealer's second card.
    fn draw_opening(&mut self, n: usize) -> (r: (Vec<Card>, Card, Vec<Card>, Card))
        requires
            old(self).wf(),
            old(self)@.state.phase == Status::Betting,
            n == old(self)@.state.players.len(),
            2 * n + 2 <= old(self)@.deck.len(),
        ensures
            final(self).state.wf(),
            final(self).deck.wf(),
            final(self)@.state == old(self)@.state,
            final(self).hole == old(self).hole,
            final(self)@.deck == old(self)@.deck.subrange(0, old(self)@.deck.len() - (2 * n + 2)),
            r.0@.len() == n,
            r.2@.len() == n,
            forall|k: int| 0 <= k < n ==> r.0@[k] == old(self)@.deck[old(self)@.deck.len() - 1 - k],
            forall|k: int|
                0 <= k < n ==> r.2@[k] == old(self)@.deck[old(self)@.deck.len() - 2 - n - k],
            r.1 == dealer_up_card(n as nat, old(self)@.deck),
            r.3 == dealer_hole_card(n as nat, old(self)@.deck),
    {
        let ghost t0 = self@;
        let ghost deck0 = self@.deck;
        let ghost l = deck0.len();
        let mut first: Vec<Card> = Vec::new();
        let mut i: usize = 0;
        while i < n
            invariant
                self@.state == t0.state,
                self.state.wf(),
                self.deck.wf(),
                self.hole == t0.hole,
                n == t0.state.players.len(),
                2 * n + 2 <= l == deck0.len(),
                i <= n,
                self@.deck == deck0.subrange(0, l - i),
                first@.len() == i,
                forall|k: int| 0 <= k < i ==> first@[k] == deck0[l - 1 - k],
            decreases n - i,
        {
            let card = self.deck.draw().unwrap();
            first.push(card);
            i = i + 1;
            assert(self@.deck =~= deck0.subrange(0, l - i));
        }
        let up = self.deck.draw().unwrap();
        assert(self@.deck =~= deck0.subrange(0, l - n - 1));
        let mut second: Vec<Card> = Vec::new();
        let mut i: usize = 0;
        while i < n
            invariant
                self@.state == t0.state,
                self.state.wf(),
                self.deck.wf(),
                self.hole == t0.hole,
                n == t0.state.players.len(),
                2 * n + 2 <= l == deck0.len(),
                i <= n,
                self@.deck == deck0.subrange(0, l - n - 1 - i),
                second@.len() == i,
                forall|k: int| 0 <= k < i ==> second@[k] == deck0[l - 2 - n - k],
            decreases n - i,
        {
            let card = self.deck.draw().unwrap();
            second.push(card);
            i = i + 1;
            assert(self@.deck =~= deck0.subrange(0, l - n - 1 - i));
        }
        let hole = self.deck.draw().unwrap();
        assert(self@.deck =~= deck0.subrange(0, l - (2 * n + 2)));
        (first, up, second, hole)
    }

    /// Deals the opening hands, as `start_post` describes.
    pub fn start(&mut self) -> (r: Result<Vec<Effect>, TableError>)
        requires
            old(self).wf(),
        ensures
            final(self).wf(),
            start_post(old(self)@, final(self)@, outcome(r)),
    {
        if !self.state.is_betting() {
            return Err(TableError::WrongPhase);
        }
        let n = self.state.get_player_count();
        if n == 0 {
            return Err(TableError::NoPlayers);
        }
        let available = self.deck.len();
        if available < 2 || (available - 2) / 2 < n {
            return Err(TableError::DeckExhausted);
        }
        let ghost t0 = self@;
        let ghost deck0 = self@.deck;
        let ghost l = deck0.len();
        let order = self.state.get_player_order();
        let (first, up, second, hole) = self.draw_opening(n);
        assert(names_of(order@).len() == order@.len());
        let dealt = build_dealt(&order, &first, &second, Ghost(turn_order(t0.state.players)));
        let ghost dealt_model = opening_deal(turn_order(t0.state.players), deck0);
        assert(dealt_of(dealt@) =~= dealt_model);
        assert(self@.deck == deck0.subrange(0, l - (2 * n + 2)));
        let mut effects: Vec<Effect> = Vec::new();
        self.emit(&mut effects, Effect::Start, Ghost(t0.state));
        let mut opening: Vec<Card> = Vec::new();
        opening.push(up);
        opening.push(hole);
        assert(opening@ =~= seq![up, hole]);
        let blackjack = score_of(&opening) == 21;
        let ghost s1 = self@.state;
        assert forall|k: int| 0 <= k < dealt_model.len() implies (#[trigger] dealt_model[k]).0
            == s1.players[k].name && s1.players[k].hand.len() + 2 <= MAX_HAND_CARDS by {
            assert(s1.players[k] == t0.state.players[k]);
        }
        if blackjack {
            self.emit(&mut effects, Effect::Deal(dealt, up, hole), Ghost(t0.state));
            self.emit(&mut effects, Effect::DealerBlackjack, Ghost(t0.state));
            self.emit(&mut effects, Effect::Finish, Ghost(t0.state));
            self.hole = None;
        } else {
            self.emit(&mut effects, Effect::Deal(dealt, up, Card::new_hidden()), Ghost(t0.state));
            self.emit(&mut effects, Effect::NextPlayer, Ghost(t0.state));
            self.hole = Some(hole);
        }
        assert(effects_model(effects@) =~= start_effects(t0.state, deck0));
        proof {
            let s2 = self@.state;
            assert forall|k: int| 0 <= k < s2.players.len() implies (#[trigger] s2.players[k]).hand.len()
                + self@.deck.len() <= DECK_SIZE by {
                assert(t0.state.players[k].hand.len() == 0);
            }
        }
        Ok(effects)
    }

    /// Plays the dealer's turn, as `dealer_action_post` describes.
    pub fn dealer_action(&mut self) -> (r: Result<Vec<Effect>, TableError>)
        requires
            old(self).wf(),
        ensures
            final(self).wf(),
            dealer_action_post(old(self)@, final(self)@, outcome(r)),
    {
        if !self.state.is_dealer_turn() {
            return Err(TableError::WrongPhase);
        }
        let ghost t0 = self@;
        let ghost deck0 = self@.deck;
        let ghost l = deck0.len();
        let hole = self.hole.unwrap();
        let ghost opened = t0.state.dealer.hand.update(1, hole);
        let mut effects: Vec<Effect> = Vec::new();
        self.emit(&mut effects, Effect::OpenDealerCard(hole), Ghost(t0.state));
        assert(effects_model(effects@) =~= seq![EffectModel::OpenDealerCard(hole)] + dealer_card_effects(next_draws(deck0, 0)));
        let mut i: usize = 0;
        loop
            invariant
                self.state.wf(),
                self.deck.wf(),
                self.hole == t0.hole,
                t0.hole == Some(hole),
                old(self)@ == t0,
                deck0 == t0.deck,
                opened == t0.state.dealer.hand.update(1, hole),
                table_wf(t0),
                t0.state.phase == Status::DealerTurn,
                self@.state.phase == Status::DealerTurn,
                self@.state.players == t0.state.players,
                i <= l == deck0.len(),
                self@.deck == deck0.subrange(0, l - i),
                self@.state.dealer.hand == opened + next_draws(deck0, i as nat),
                self@.state.dealer.hand.len() >= 2,
                self@.state.dealer.hand.len() + self@.deck.len() <= DECK_SIZE,
                effects_model(effects@) == seq![EffectModel::OpenDealerCard(hole)] + dealer_card_effects(
                    next_draws(deck0, i as nat),
                ),
                self@.state == replay(t0.state, effects_model(effects@)),
                dealer_draw_count(opened, deck0) == i + dealer_draw_count(
                    self@.state.dealer.hand,
                    self@.deck,
                ),
            ensures
                self.state.wf(),
                self.deck.wf(),
                self@.state.phase == Status::DealerTurn,
                self@.state.players == t0.state.players,
                dealer_draw_count(opened, deck0) == i,
                self@.deck == deck0.subrange(0, l - i),
                self@.state.dealer.hand == opened + next_draws(deck0, i as nat),
                self@.state.dealer.hand.len() >= 2,
                self@.state.dealer.hand.len() + self@.deck.len() <= DECK_SIZE,
                effects_model(effects@) == seq![EffectModel::OpenDealerCard(hole)] + dealer_card_effects(
                    next_draws(deck0, i as nat),
                ),
                self@.state == replay(t0.state, effects_model(effects@)),
                hand_score(self@.state.dealer.hand) >= 17,
            decreases l - i,
        {
            if self.state.get_dealer_score() >= 17 {
                break;
            }
            let ghost hand = self@.state.dealer.hand;
            let ghost deck_now = self@.deck;
            let card = match self.deck.draw() {
                Some(card) => card,
                None => {
                    assert(deck_now.len() == 0);
                    assert(dealer_draw_count(hand, deck_now) == 0);
                    assert(dealer_draw_count(opened, deck0) == i);
                    assert(hand_score(opened + next_draws(deck0, i as nat)) < 17);
                    return Err(TableError::DeckExhausted);
                },
            };
            assert(card == deck0[l - 1 - i]);
            assert(dealer_draw_count(hand, deck_now) == 1 + dealer_draw_count(
                hand.push(card),
                deck_now.drop_last(),
            ));
            let ghost prev = effects@;
            self.emit(&mut effects, Effect::AddDealerCard(card), Ghost(t0.state));
            i = i + 1;
            assert(next_draws(deck0, i as nat) =~= next_draws(deck0, (i - 1) as nat).push(card));
            assert(self@.deck =~= deck0.subrange(0, l - i));
            assert(dealer_card_effects(next_draws(deck0, i as nat)) =~= dealer_card_effects(
                next_draws(deck0, (i - 1) as nat),
            ).push(EffectModel::AddDealerCard(card)));
            assert(effects_model(effects@) =~= seq![EffectModel::OpenDealerCard(hole)] + dealer_card_effects(
                next_draws(deck0, i as nat),
            ));
            assert(self@.state.dealer.hand =~= opened + next_draws(deck0, i as nat));
        }
        if self.state.get_dealer_score() > 21 {
            self.emit(&mut effects, Effect::DealerBurst, Ghost(t0.state));
        }
        self.emit(&mut effects, Effect::Finish, Ghost(t0.state));
        self.hole = None;
        assert(effects_model(effects@) =~= dealer_effects(opened, hole, deck0));
        Ok(effects)
    }

    /// Carries out a player's command, as `command_post` describes. On success the
    /// projection is what the returned effects make of the old one.
    pub fn apply_command(&mut self, command: Command) -> (r: Result<Vec<Effect>, TableError>)
        requires
            old(self).wf(),
        ensures
            final(self).wf(),
            command_post(old(self)@, final(self)@, command, outcome(r)),
            r matches Ok(v) ==> final(self)@.state == replay(old(self)@.state, effects_model(v@)),
            r is Err ==> final(self)@ == old(self)@,
    {
        let ghost t0 = self@;
        let ghost c = command;
        let r = match command {
            Command::Ping(_) => {
                let v: Vec<Effect> = Vec::new();
                assert(effects_model(v@) =~= Seq::empty());
                Ok(v)
            },
            Command::Participate(name) => self.participate(name),
            Command::Leave(name) => self.leave(&name),
            Command::Bet(name, amount) => self.bet(&name, amount),
            Command::Hit(name) => self.hit(&name),
            Command::Stand(name) => self.stand(&name),
        };
        proof {
            if r is Ok {
                let effects = effects_model(r->Ok_0@);
                if effects.len() == 1 {
                    lemma_replay_push(t0.state, Seq::empty(), effects[0]);
                    assert(Seq::<EffectModel>::empty().push(effects[0]) =~= effects);
                }
            }
        }
        r
    }

    /// The betting time ran out: a table without players closes, one with players starts
    /// its round, and one whose round has already started is left as it is.
    pub fn on_betting_timeout(&mut self) -> (r: TimerOutcome)
        requires
            old(self).wf(),
        ensures
            final(self).wf(),
            old(self)@.state.phase != Status::Betting ==> r is Ignored && final(self)@ == old(self)@,
            old(self)@.state.phase == Status::Betting && old(self)@.state.players.len() == 0 ==> (r
                matches TimerOutcome::Closed(v) && effects_model(v@) == seq![EffectModel::NoPlayer]
                && final(self)@ == (TableModel {
                state: apply(old(self)@.state, EffectModel::NoPlayer),
                ..old(self)@
            })),
            old(self)@.state.phase == Status::Betting && old(self)@.state.players.len() > 0 ==> (
            r matches TimerOutcome::Started(v) && start_post(
                old(self)@,
                final(self)@,
                Ok(effects_model(v@)),
            )) || (r matches TimerOutcome::Failed(e) && start_post(
                old(self)@,
                final(self)@,
                Err(e),
            )),
    {
        if !self.state.is_betting() {
            return TimerOutcome::Ignored;
        }
        if self.state.get_player_count() == 0 {
            let ghost t0 = self@;
            let mut effects: Vec<Effect> = Vec::new();
            self.emit(&mut effects, Effect::NoPlayer, Ghost(t0.state));
            assert(effects_model(effects@) =~= seq![EffectModel::NoPlayer]);
            return TimerOutcome::Closed(effects);
        }
        match self.start() {
            Ok(effects) => TimerOutcome::Started(effects),
            Err(e) => TimerOutcome::Failed(e),
        }
    }

    /// Plays the dealer's turn when it has come; otherwise does nothing.
    pub fn auto_play(&mut self) -> (r: Result<Vec<Effect>, TableError>)
        requires
            old(self).wf(),
        ensures
            final(self).wf(),
            old(self)@.state.phase == Status::DealerTurn ==> dealer_action_post(
                old(self)@,
                final(self)@,
                outcome(r),
            ),
            old(self)@.state.phase != Status::DealerTurn ==> r is Ok && effects_model(r->Ok_0@)
                == Seq::<EffectModel>::empty() && final(self)@ == old(self)@,
    {
        if self.state.is_dealer_turn() {
            self.dealer_action()
        } else {
            let v: Vec<Effect> = Vec::new();
            assert(effects_model(v@) =~= Seq::empty());
            Ok(v)
        }
    }

    /// Once the round has ended: each player's name, payout and net gain.
    pub fn settlement(&self) -> (r: Option<Vec<(String, u64, i64)>>)
        requires
            self.wf(),
        ensures
            self@.state.phase != Status::End ==> r is None,
            self@.state.phase == Status::End ==> r is Some && r->Some_0@.len()
                == self@.state.players.len() && forall|i: int|
                0 <= i < self@.state.players.len() ==> (#[trigger] r->Some_0@[i]).0@
                    == self@.state.players[i].name && r->Some_0@[i].1 == crate::state::payout(
                    hand_score(self@.state.players[i].hand),
                    hand_score(self@.state.dealer.hand),
                    self@.state.players[i].amount as nat,
                ) && r->Some_0@[i].2 == r->Some_0@[i].1 - self@.state.players[i].amount,
    {
        if self.state.is_finished() {
            Some(self.state.get_result())
        } else {
            None
        }
    }

    /// The projection that the effects so far describe.
    pub fn state(&self) -> (r: &State)
        ensures
            r@ == self@.state,
    {
        &self.state
    }

    pub fn is_dealer_turn(&self) -> (r: bool)
        ensures
            r == (self@.state.phase == Status::DealerTurn),
    {
        self.state.is_dealer_turn()
    }

    pub fn is_started(&self) -> (r: bool)
        ensures
            r == (self@.state.phase != Status::Betting),
    {
        self.state.is_started()
    }

    pub fn is_finished(&self) -> (r: bool)
        ensures
            r == (self@.state.phase == Status::End),
    {
        self.state.is_finished()
    }

    pub fn get_player_count(&self) -> (r: usize)
        ensures
            r == self@.state.players.len(),
    {
        self.state.get_player_count()
    }

    /// The names in turn order.
    pub fn get_players(&self) -> (r: Vec<String>)
        ensures
            names_of(r@) == turn_order(self@.state.players),
    {
        self.state.get_player_order()
    }

    /// The names in turn order.
    pub fn get_player_order(&self) -> (r: Vec<String>)
        ensures
            names_of(r@) == turn_order(self@.state.players),
    {
        self.state.get_player_order()
    }
}

} // verus!
