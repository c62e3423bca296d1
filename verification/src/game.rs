//! The game state machine: the table context (deck plus both hands), the
//! five-state automaton, and the three transitions `deal`, `hit` and
//! `stand`, each returning the next state together with an ordered log of
//! presentation events.

use vstd::prelude::*;

verus! {

use vstd::multiset::Multiset;
use crate::deck::{copy_cards, standard_deck_seq, Card, Deck, EmptyDeckError};
use crate::hand::{hand_score, DealerHand, Hand, Score};

/// The two ways a transition can fail: the deck ran out of cards mid-draw,
/// or the transition is not defined for the current state.
#[derive(Clone, Copy, PartialEq, Eq, Structural, Debug)]
pub enum GameError {
    EmptyDeck,
    InvalidState,
}

/// One presentation event. Transitions return an ordered run of these;
/// consumers render them in order, and the core never depends on how they
/// are consumed.
#[derive(PartialEq, Debug)]
pub enum Action {
    /// The initial two-and-two deal just happened.
    NewHand(Hand, DealerHand),
    /// One card was added to the player's hand.
    NewPlayerCard(Card),
    /// One or more cards were added to the dealer's hand during auto-play.
    NewDealerCards(Vec<Card>),
    PlayerWins,
    DealerWins,
    Draw,
    /// The dealer's hidden first card should now be revealed.
    ShowDealerHoleCard(Card),
}

/// The two events are the same variant and announce the same cards.
pub open spec fn same_action(a: Action, b: Action) -> bool {
    match (a, b) {
        (Action::NewHand(p1, d1), Action::NewHand(p2, d2)) => p1@ == p2@ && d1@ == d2@,
        (Action::NewDealerCards(c1), Action::NewDealerCards(c2)) => c1@ == c2@,
        _ => a == b,
    }
}

impl Clone for Action {
    fn clone(&self) -> (a: Action)
        ensures
            same_action(a, *self),
    {
        match self {
            Action::NewHand(p, d) => Action::NewHand(p.clone(), d.clone()),
            Action::NewPlayerCard(c) => Action::NewPlayerCard(*c),
            Action::NewDealerCards(cs) => Action::NewDealerCards(copy_cards(cs)),
            Action::PlayerWins => Action::PlayerWins,
            Action::DealerWins => Action::DealerWins,
            Action::Draw => Action::Draw,
            Action::ShowDealerHoleCard(c) => Action::ShowDealerHoleCard(*c),
        }
    }
}

/// The table between transitions: the remaining deck and both hands. Every
/// operation returns a fresh context; none mutates in place.
#[derive(PartialEq, Debug)]
pub struct Context {
    pub deck: Deck,
    pub player_hand: Hand,
    pub dealer_hand: DealerHand,
}

impl Clone for Context {
    fn clone(&self) -> (c: Context)
        ensures
            c.deck.cards@ == self.deck.cards@,
            c.player_hand@ == self.player_hand@,
            c.dealer_hand@ == self.dealer_hand@,
    {
        Context {
            deck: self.deck.clone(),
            player_hand: self.player_hand.clone(),
            dealer_hand: self.dealer_hand.clone(),
        }
    }
}

/// The five states of a round. `WaitingForPlayer` is the only state that
/// accepts player decisions; the three terminal states are re-dealt into a
/// fresh round by calling `deal` again.
#[derive(PartialEq, Debug)]
pub enum GameState {
    Ready(Context),
    WaitingForPlayer(Context),
    DealerWins(Context),
    PlayerWins(Context),
    Draw(Context),
}

impl Context {
    /// Every card on the table, wherever it lies: still in the deck, in the
    /// player's hand, or in the dealer's.
    pub open spec fn cards_multiset(self) -> Multiset<Card> {
        self.deck.cards@.to_multiset().add(self.player_hand@.to_multiset()).add(
            self.dealer_hand@.to_multiset(),
        )
    }

    /// How many cards are on the table in all.
    pub open spec fn total_cards(self) -> int {
        self.deck.cards@.len() + self.player_hand@.len() + self.dealer_hand@.len() as int
    }

    /// A table never holds more cards than one full deck. This is what lets
    /// every hand be scored without overflow.
    pub open spec fn wf(self) -> bool {
        self.total_cards() <= 52
    }
}

/// Moving the front card of `src` onto the end of `dst` leaves the combined
/// collection of cards unchanged.
proof fn lemma_move_front_conserves(src: Seq<Card>, dst: Seq<Card>)
    requires
        src.len() > 0,
    ensures
        dst.push(src[0]).to_multiset().add(src.drop_first().to_multiset()) == dst.to_multiset().add(
            src.to_multiset(),
        ),
{
    broadcast use vstd::seq_lib::group_to_multiset_ensures;
    broadcast use vstd::multiset::group_multiset_axioms;

    assert(src =~= seq![src[0]] + src.drop_first());
    vstd::seq_lib::lemma_multiset_commutative(seq![src[0]], src.drop_first());
    assert(seq![src[0]] =~= Seq::<Card>::empty().push(src[0]));
    assert(dst.push(src[0]).to_multiset().add(src.drop_first().to_multiset())
        =~= dst.to_multiset().add(src.to_multiset()));
}

/// The player's starting cards: the first and third card off the deck.
pub open spec fn initial_player(deck: Seq<Card>) -> Seq<Card> {
    seq![deck[0], deck[2]]
}

/// The dealer's starting cards: the second card (the hole card) and the
/// fourth (the upcard).
pub open spec fn initial_dealer(deck: Seq<Card>) -> Seq<Card> {
    seq![deck[1], deck[3]]
}

/// The dealer's finished hand and the leftover deck once the dealer has
/// drawn, one card at a time, up to a score of seventeen or more; `None` if
/// the deck runs out first.
pub open spec fn dealer_final(dealer: Seq<Card>, deck: Seq<Card>) -> Option<(Seq<Card>, Seq<Card>)>
    decreases deck.len(),
{
    if hand_score(dealer) >= 17 {
        Some((dealer, deck))
    } else if deck.len() == 0 {
        None
    } else {
        dealer_final(dealer.push(deck[0]), deck.drop_first())
    }
}

/// The corrected, symmetric outcome rules: the player wins on the higher
/// score or whenever the dealer busts; the dealer wins on the higher score
/// only without busting.
pub open spec fn spec_dealer_wins(player: int, dealer: int) -> bool {
    dealer > player && dealer <= 21
}

pub open spec fn spec_player_wins(player: int, dealer: int) -> bool {
    player > dealer || dealer > 21
}

pub open spec fn spec_draw(player: int, dealer: int) -> bool {
    player == dealer
}

impl Context {
    fn new(deck: Deck) -> (c: Context)
        ensures
            c.deck.cards@ == deck.cards@,
            c.player_hand@ == Seq::<Card>::empty(),
            c.dealer_hand@ == Seq::<Card>::empty(),
    {
        Context { deck, player_hand: Hand::new(), dealer_hand: DealerHand::new() }
    }

    /// A table with no cards at all, deck included.
    pub fn empty() -> (c: Context)
        ensures
            c.deck.cards@ == Seq::<Card>::empty(),
            c.player_hand@ == Seq::<Card>::empty(),
            c.dealer_hand@ == Seq::<Card>::empty(),
    {
        Context::new(Deck::new())
    }

    /// A table with empty hands and exactly the given cards as the deck, in
    /// the given order: the way tests stack a deterministic deck.
    pub fn new_with_cards(cards: Vec<Card>) -> (c: Context)
        ensures
            c.deck.cards@ == cards@,
            c.player_hand@ == Seq::<Card>::empty(),
            c.dealer_hand@ == Seq::<Card>::empty(),
    {
        Context::new(Deck::new_with_cards(cards))
    }

    /// A table for a fresh round: empty hands and a newly shuffled full deck.
    fn new_hand() -> (c: Context)
        ensures
            c.player_hand@ == Seq::<Card>::empty(),
            c.dealer_hand@ == Seq::<Card>::empty(),
            c.deck.cards@.to_multiset() == standard_deck_seq().to_multiset(),
            c.deck.cards@.len() == 52,
            full_table(c),
    {
        let deck = Deck::standard_deck().shuffle();
        proof {
            broadcast use vstd::seq_lib::group_to_multiset_ensures;

            assert(deck.cards@.len() == deck.cards@.to_multiset().len());
            assert(standard_deck_seq().len() == standard_deck_seq().to_multiset().len());
        }
        let c = Context::new(deck);
        proof {
            broadcast use vstd::seq_lib::group_to_multiset_ensures;
            broadcast use vstd::multiset::group_multiset_axioms;

            assert forall|x: Card|
                c.cards_multiset().count(x) == c.deck.cards@.to_multiset().count(x) by {
                assert(!Seq::<Card>::empty().contains(x));
            }
            assert(c.cards_multiset() =~= c.deck.cards@.to_multiset());
        }
        c
    }

    /// Draw four cards, alternating player first: first and third to the
    /// player, second and fourth to the dealer. The hands are built afresh;
    /// whatever the context's hands held before is discarded.
    fn deal_initial_hands(&self) -> (r: Result<Context, EmptyDeckError>)
        ensures
            r is Err <==> self.deck.cards@.len() < 4,
            r matches Ok(c) ==> {
                &&& c.player_hand@ == initial_player(self.deck.cards@)
                &&& c.dealer_hand@ == initial_dealer(self.deck.cards@)
                &&& c.deck.cards@ == self.deck.cards@.subrange(4, self.deck.cards@.len() as int)
                &&& c.cards_multiset() == self.deck.cards@.to_multiset()
            },
    {
        let (new_deck, first_card) = match self.deck.deal() {
            Ok(p) => p,
            Err(e) => {
                return Err(e);
            },
        };
        let (new_deck, second_card) = match new_deck.deal() {
            Ok(p) => p,
            Err(e) => {
                return Err(e);
            },
        };
        let (new_deck, third_card) = match new_deck.deal() {
            Ok(p) => p,
            Err(e) => {
                return Err(e);
            },
        };
        let (new_deck, fourth_card) = match new_deck.deal() {
            Ok(p) => p,
            Err(e) => {
                return Err(e);
            },
        };
        let player_hand = Hand::new().add(first_card).add(third_card);
        let dealer_hand = DealerHand::new().add(second_card).add(fourth_card);
        proof {
            assert(new_deck.cards@ =~= self.deck.cards@.subrange(4, self.deck.cards@.len() as int));
            assert(player_hand@ =~= initial_player(self.deck.cards@));
            assert(dealer_hand@ =~= initial_dealer(self.deck.cards@));
        }
        let c = Context { player_hand, dealer_hand, deck: new_deck };
        proof {
            broadcast use vstd::seq_lib::group_to_multiset_ensures;
            broadcast use vstd::multiset::group_multiset_axioms;

            let deck = self.deck.cards@;
            let four = seq![deck[0], deck[1], deck[2], deck[3]];
            assert(deck =~= four + c.deck.cards@);
            vstd::seq_lib::lemma_multiset_commutative(four, c.deck.cards@);
            assert(four =~= Seq::<Card>::empty().push(deck[0]).push(deck[1]).push(deck[2]).push(
                deck[3],
            ));
            assert(c.player_hand@ =~= Seq::<Card>::empty().push(deck[0]).push(deck[2]));
            assert(c.dealer_hand@ =~= Seq::<Card>::empty().push(deck[1]).push(deck[3]));
            assert(c.cards_multiset() =~= deck.to_multiset());
        }
        Ok(c)
    }

    /// Draw one card from the deck and append it to the player's hand only.
    fn deal_player_card(&self) -> (r: Result<Context, EmptyDeckError>)
        ensures
            r is Err <==> self.deck.cards@.len() == 0,
            r matches Ok(c) ==> {
                &&& c.player_hand@ == self.player_hand@.push(self.deck.cards@[0])
                &&& c.dealer_hand@ == self.dealer_hand@
                &&& c.deck.cards@ == self.deck.cards@.drop_first()
                &&& c.cards_multiset() == self.cards_multiset()
            },
    {
        let (deck, card) = match self.deck.deal() {
            Ok(p) => p,
            Err(e) => {
                return Err(e);
            },
        };
        let player_hand = self.player_hand.add(card);
        proof {
            assert(deck.cards@ =~= self.deck.cards@.drop_first());
        }
        let c = Context { player_hand, dealer_hand: self.dealer_hand.clone(), deck };
        proof {
            broadcast use vstd::multiset::group_multiset_axioms;

            lemma_move_front_conserves(self.deck.cards@, self.player_hand@);
            let m1 = c.player_hand@.to_multiset().add(c.deck.cards@.to_multiset());
            let m2 = self.player_hand@.to_multiset().add(self.deck.cards@.to_multiset());
            assert(m1 == m2);
            assert forall|x: Card| c.cards_multiset().count(x) == self.cards_multiset().count(x) by {
                assert(m1.count(x) == m2.count(x));
            }
            assert(c.cards_multiset() =~= self.cards_multiset());
        }
        Ok(c)
    }

    /// Play out the dealer's hand: draw while the dealer's score is below
    /// seventeen, and stand as soon as it reaches seventeen or more. Fails
    /// only if the deck runs out mid-loop.
    fn play_dealer_hand(&self) -> (r: Result<Context, EmptyDeckError>)
        requires
            self.wf(),
        ensures
            r is Err <==> dealer_final(self.dealer_hand@, self.deck.cards@) is None,
            r matches Ok(c) ==> {
                &&& dealer_final(self.dealer_hand@, self.deck.cards@) matches Some((dh, dk))
                    && c.dealer_hand@ == dh && c.deck.cards@ == dk
                &&& c.player_hand@ == self.player_hand@
                &&& c.total_cards() == self.total_cards()
                &&& c.dealer_hand@.len() >= self.dealer_hand@.len()
                &&& c.cards_multiset() == self.cards_multiset()
            },
    {
        let mut new_context = self.clone();
        proof {
            assert(new_context.cards_multiset() =~= self.cards_multiset());
        }
        let mut score: Score = new_context.dealer_hand.score();
        while score.0 < 17
            invariant
                score.0 == hand_score(new_context.dealer_hand@),
                new_context.player_hand@ == self.player_hand@,
                new_context.dealer_hand@.len() >= self.dealer_hand@.len(),
                new_context.total_cards() == self.total_cards(),
                new_context.cards_multiset() == self.cards_multiset(),
                self.wf(),
                dealer_final(new_context.dealer_hand@, new_context.deck.cards@) == dealer_final(
                    self.dealer_hand@,
                    self.deck.cards@,
                ),
            decreases new_context.deck.cards@.len(),
        {
            let (deck, card) = match new_context.deck.deal() {
                Ok(p) => p,
                Err(e) => {
                    return Err(e);
                },
            };
            proof {
                assert(deck.cards@ =~= new_context.deck.cards@.drop_first());
            }
            let ghost prev_deck = new_context.deck.cards@;
            let ghost prev_dealer = new_context.dealer_hand@;
            let ghost prev_cards = new_context.cards_multiset();
            new_context = Context {
                deck,
                dealer_hand: new_context.dealer_hand.add(card),
                player_hand: new_context.player_hand,
            };
            proof {
                broadcast use vstd::multiset::group_multiset_axioms;

                lemma_move_front_conserves(prev_deck, prev_dealer);
                let m1 = new_context.dealer_hand@.to_multiset().add(
                    new_context.deck.cards@.to_multiset(),
                );
                let m2 = prev_dealer.to_multiset().add(prev_deck.to_multiset());
                assert(m1 == m2);
                assert forall|x: Card| new_context.cards_multiset().count(x) == prev_cards.count(x)
                by {
                    assert(m1.count(x) == m2.count(x));
                }
                assert(new_context.cards_multiset() =~= prev_cards);
            }
            score = new_context.dealer_hand.score();
        }
        Ok(new_context)
    }

    /// The player's current score.
    pub fn player_score(&self) -> (s: Score)
        requires
            self.player_hand@.len() <= 52,
        ensures
            s.0 == hand_score(self.player_hand@),
    {
        self.player_hand.score()
    }

    /// The dealer's current score, hole card included.
    pub fn dealer_score(&self) -> (s: Score)
        requires
            self.dealer_hand@.len() <= 52,
        ensures
            s.0 == hand_score(self.dealer_hand@),
    {
        self.dealer_hand.score()
    }

    fn player_blackjack(&self) -> (b: bool)
        requires
            self.player_hand@.len() <= 52,
        ensures
            b == (hand_score(self.player_hand@) == 21),
    {
        self.player_score().0 == 21
    }

    fn dealer_blackjack(&self) -> (b: bool)
        requires
            self.dealer_hand@.len() <= 52,
        ensures
            b == (hand_score(self.dealer_hand@) == 21),
    {
        self.dealer_score().0 == 21
    }

    fn double_blackjack(&self) -> (b: bool)
        requires
            self.player_hand@.len() <= 52,
            self.dealer_hand@.len() <= 52,
        ensures
            b == (hand_score(self.player_hand@) == 21 && hand_score(self.dealer_hand@) == 21),
    {
        self.player_blackjack() && self.dealer_blackjack()
    }

    fn player_busts(&self) -> (b: bool)
        requires
            self.player_hand@.len() <= 52,
        ensures
            b == (hand_score(self.player_hand@) > 21),
    {
        self.player_score().0 > 21
    }

    fn dealer_busts(&self) -> (b: bool)
        requires
            self.dealer_hand@.len() <= 52,
        ensures
            b == (hand_score(self.dealer_hand@) > 21),
    {
        self.dealer_score().0 > 21
    }

    fn player_wins(&self) -> (b: bool)
        requires
            self.player_hand@.len() <= 52,
            self.dealer_hand@.len() <= 52,
        ensures
            b == spec_player_wins(hand_score(self.player_hand@), hand_score(self.dealer_hand@)),
    {
        self.player_score().0 > self.dealer_score().0 || self.dealer_busts()
    }

    fn dealer_wins(&self) -> (b: bool)
        requires
            self.player_hand@.len() <= 52,
            self.dealer_hand@.len() <= 52,
        ensures
            b == spec_dealer_wins(hand_score(self.player_hand@), hand_score(self.dealer_hand@)),
    {
        self.dealer_score().0 > self.player_score().0 && !self.dealer_busts()
    }

    fn draw(&self) -> (b: bool)
        requires
            self.player_hand@.len() <= 52,
            self.dealer_hand@.len() <= 52,
        ensures
            b == spec_draw(hand_score(self.player_hand@), hand_score(self.dealer_hand@)),
    {
        self.player_score().0 == self.dealer_score().0
    }
}

impl GameState {
    /// The context the state carries, whichever variant it is.
    pub open spec fn carried(self) -> Context {
        match self {
            GameState::Ready(c) => c,
            GameState::WaitingForPlayer(c) => c,
            GameState::DealerWins(c) => c,
            GameState::PlayerWins(c) => c,
            GameState::Draw(c) => c,
        }
    }

    /// The round has resolved; the next `deal` starts a fresh one.
    pub open spec fn is_terminal(self) -> bool {
        match self {
            GameState::DealerWins(_) | GameState::PlayerWins(_) | GameState::Draw(_) => true,
            _ => false,
        }
    }

    /// What the transitions rely on: a table no larger than one deck, and,
    /// once a round is in progress, a dealer hand that already holds its
    /// hole card and upcard.
    pub open spec fn wf(self) -> bool {
        match self {
            GameState::WaitingForPlayer(c) => c.wf() && c.dealer_hand@.len() >= 2,
            _ => true,
        }
    }

    /// A fresh game, ready for the first deal, with a newly shuffled full
    /// deck and empty hands.
    pub fn new() -> (s: GameState)
        ensures
            s matches GameState::Ready(c) && fresh_start(c),
            full_table(s.carried()),
            s.wf(),
    {
        GameState::Ready(Context::new_hand())
    }
}

/// A context a round can start from: empty hands and a full deck, in
/// whatever order the shuffle left it.
pub open spec fn fresh_start(c: Context) -> bool {
    &&& c.player_hand@ == Seq::<Card>::empty()
    &&& c.dealer_hand@ == Seq::<Card>::empty()
    &&& c.deck.cards@.to_multiset() == standard_deck_seq().to_multiset()
    &&& c.deck.cards@.len() == 52
}

/// Deck conservation: the cards on the table — deck, player's hand and
/// dealer's hand together — are exactly the standard 52-card deck. A fresh
/// game starts this way, and every transition keeps it.
pub open spec fn full_table(c: Context) -> bool {
    c.cards_multiset() == standard_deck_seq().to_multiset()
}

/// The action announces exactly these two freshly dealt hands.
pub open spec fn is_new_hand_action(a: Action, player: Seq<Card>, dealer: Seq<Card>) -> bool {
    a matches Action::NewHand(p, d) && p@ == player && d@ == dealer
}

/// What `deal` returns from a ready context: either the deck held fewer
/// than four cards and nothing happened, or the four cards were dealt and
/// the result classified.
pub open spec fn deal_ready_post(
    c: Context,
    r: Result<(GameState, Vec<Action>), GameError>,
) -> bool {
    if c.deck.cards@.len() < 4 {
        r == Result::<(GameState, Vec<Action>), GameError>::Err(GameError::EmptyDeck)
    } else {
        r matches Ok((st, acts)) && deal_ready_ok(c, st, acts@)
    }
}

/// The successful outcome of dealing from `c`: hands dealt in alternating
/// order, the rest of the deck kept in order, the state classified with
/// double blackjack checked first, then the dealer's, then the player's,
/// and the action log laid out for that outcome.
pub open spec fn deal_ready_ok(c: Context, st: GameState, acts: Seq<Action>) -> bool {
    let deck = c.deck.cards@;
    let player = initial_player(deck);
    let dealer = initial_dealer(deck);
    let ps = hand_score(player);
    let ds = hand_score(dealer);
    let nc = st.carried();
    &&& nc.deck.cards@ == deck.subrange(4, deck.len() as int)
    &&& nc.player_hand@ == player
    &&& nc.dealer_hand@ == dealer
    &&& if ps == 21 && ds == 21 {
        &&& st is Draw
        &&& acts.len() == 3
        &&& acts[0] == Action::Draw
        &&& acts[1] == Action::ShowDealerHoleCard(deck[1])
        &&& is_new_hand_action(acts[2], player, dealer)
    } else if ds == 21 {
        &&& st is DealerWins
        &&& acts.len() == 3
        &&& acts[0] == Action::DealerWins
        &&& acts[1] == Action::ShowDealerHoleCard(deck[1])
        &&& is_new_hand_action(acts[2], player, dealer)
    } else if ps == 21 {
        &&& st is PlayerWins
        &&& acts.len() == 3
        &&& acts[0] == Action::PlayerWins
        &&& acts[1] == Action::ShowDealerHoleCard(deck[1])
        &&& is_new_hand_action(acts[2], player, dealer)
    } else {
        &&& st is WaitingForPlayer
        &&& acts.len() == 1
        &&& is_new_hand_action(acts[0], player, dealer)
    }
}

/// The action log of a resolved stand: the resolution tag first, then the
/// hole-card reveal, then — only if the dealer drew — the drawn cards.
pub open spec fn is_resolution_log(acts: Seq<Action>, tag: Action, dealer: Seq<Card>) -> bool {
    &&& acts.len() == if dealer.len() > 2 {
        3int
    } else {
        2int
    }
    &&& acts[0] == tag
    &&& acts[1] == Action::ShowDealerHoleCard(dealer[0])
    &&& dealer.len() > 2 ==> (acts[2] matches Action::NewDealerCards(cs) && cs@ == dealer.skip(2))
}

/// The outcome of standing with player hand `player` once the dealer's
/// hand has been played out to `dh` leaving deck `dk`: the outcome is
/// classified dealer first, then player, then draw, and the log laid out
/// accordingly.
pub open spec fn stand_resolution(
    player: Seq<Card>,
    dh: Seq<Card>,
    dk: Seq<Card>,
    st: GameState,
    acts: Seq<Action>,
) -> bool {
    let ps = hand_score(player);
    let ds = hand_score(dh);
    let nc = st.carried();
    &&& nc.player_hand@ == player
    &&& nc.dealer_hand@ == dh
    &&& nc.deck.cards@ == dk
    &&& if spec_dealer_wins(ps, ds) {
        st is DealerWins && is_resolution_log(acts, Action::DealerWins, dh)
    } else if spec_player_wins(ps, ds) {
        st is PlayerWins && is_resolution_log(acts, Action::PlayerWins, dh)
    } else {
        st is Draw && is_resolution_log(acts, Action::Draw, dh)
    }
}

/// What `stand` returns from the waiting context `c`: either the deck ran
/// out while the dealer drew, or the dealer's hand was played out and the
/// round resolved.
pub open spec fn stand_post(c: Context, r: Result<(GameState, Vec<Action>), GameError>) -> bool {
    match dealer_final(c.dealer_hand@, c.deck.cards@) {
        None => r == Result::<(GameState, Vec<Action>), GameError>::Err(GameError::EmptyDeck),
        Some((dh, dk)) => r matches Ok((st, acts)) && stand_resolution(
            c.player_hand@,
            dh,
            dk,
            st,
            acts@,
        ),
    }
}

/// What `hit` returns from the waiting context `c`: the drawn card is
/// announced first; a fresh twenty-one stands automatically, a bust hands
/// the round to the dealer, and anything else keeps waiting.
pub open spec fn hit_post(c: Context, r: Result<(GameState, Vec<Action>), GameError>) -> bool {
    if c.deck.cards@.len() == 0 {
        r == Result::<(GameState, Vec<Action>), GameError>::Err(GameError::EmptyDeck)
    } else {
        let card = c.deck.cards@[0];
        let player = c.player_hand@.push(card);
        let deck = c.deck.cards@.drop_first();
        let ps = hand_score(player);
        if ps == 21 {
            match dealer_final(c.dealer_hand@, deck) {
                None => r == Result::<(GameState, Vec<Action>), GameError>::Err(
                    GameError::EmptyDeck,
                ),
                Some((dh, dk)) => r matches Ok((st, acts)) && acts@.len() >= 1 && acts@[0]
                    == Action::NewPlayerCard(card) && stand_resolution(
                    player,
                    dh,
                    dk,
                    st,
                    acts@.skip(1),
                ),
            }
        } else if ps > 21 {
            r matches Ok((st, acts)) && {
                let nc = st.carried();
                &&& st is DealerWins
                &&& nc.player_hand@ == player
                &&& nc.dealer_hand@ == c.dealer_hand@
                &&& nc.deck.cards@ == deck
                &&& acts@.len() == 3
                &&& acts@[0] == Action::NewPlayerCard(card)
                &&& acts@[1] == Action::DealerWins
                &&& acts@[2] == Action::ShowDealerHoleCard(c.dealer_hand@[0])
            }
        } else {
            r matches Ok((st, acts)) && {
                let nc = st.carried();
                &&& st is WaitingForPlayer
                &&& nc.player_hand@ == player
                &&& nc.dealer_hand@ == c.dealer_hand@
                &&& nc.deck.cards@ == deck
                &&& acts@.len() == 1
                &&& acts@[0] == Action::NewPlayerCard(card)
            }
        }
    }
}

/// The `NewHand` event for the context's two hands.
fn new_hand_action(context: &Context) -> (a: Action)
    ensures
        is_new_hand_action(a, context.player_hand@, context.dealer_hand@),
{
    Action::NewHand(context.player_hand.clone(), context.dealer_hand.clone())
}

fn deal_from_ready(context: &Context) -> (r: Result<(GameState, Vec<Action>), GameError>)
    ensures
        deal_ready_post(*context, r),
        context.wf() ==> (r matches Ok((st, _)) ==> st.wf()),
        r matches Ok((st, _)) ==> st.carried().cards_multiset() == context.deck.cards@.to_multiset(),
{
    let new_context = match context.deal_initial_hands() {
        Ok(c) => c,
        Err(_) => {
            return Err(GameError::EmptyDeck);
        },
    };
    if new_context.double_blackjack() {
        let hole = new_context.dealer_hand.hole_card().unwrap();
        let actions = vec![
            Action::Draw,
            Action::ShowDealerHoleCard(hole),
            new_hand_action(&new_context),
        ];
        Ok((GameState::Draw(new_context), actions))
    } else if new_context.dealer_blackjack() {
        let hole = new_context.dealer_hand.hole_card().unwrap();
        let actions = vec![
            Action::DealerWins,
            Action::ShowDealerHoleCard(hole),
            new_hand_action(&new_context),
        ];
        Ok((GameState::DealerWins(new_context), actions))
    } else if new_context.player_blackjack() {
        let hole = new_context.dealer_hand.hole_card().unwrap();
        let actions = vec![
            Action::PlayerWins,
            Action::ShowDealerHoleCard(hole),
            new_hand_action(&new_context),
        ];
        Ok((GameState::PlayerWins(new_context), actions))
    } else {
        let actions = vec![new_hand_action(&new_context)];
        Ok((GameState::WaitingForPlayer(new_context), actions))
    }
}

/// Deal a round. From `Ready`, draw the four starting cards and classify
/// the result; from a resolved state, start an entirely new round with a
/// fresh shuffle; while a round is in progress, refuse.
pub fn deal(state: &GameState) -> (r: Result<(GameState, Vec<Action>), GameError>)
    ensures
        r == Result::<(GameState, Vec<Action>), GameError>::Err(GameError::InvalidState) <==> state
            is WaitingForPlayer,
        state matches GameState::Ready(c) ==> deal_ready_post(*c, r),
        state matches GameState::Ready(c) ==> (r matches Ok((st, _))
            ==> st.carried().cards_multiset() == c.deck.cards@.to_multiset()),
        state.is_terminal() ==> r is Ok && exists|c: Context|
            fresh_start(c) && #[trigger] deal_ready_post(c, r),
        state.is_terminal() ==> (r matches Ok((st, _)) ==> full_table(st.carried())),
        state matches GameState::Ready(c) && fresh_start(*c) ==> (r matches Ok((st, _))
            ==> full_table(st.carried())),
        state matches GameState::Ready(c) && c.wf() || state.is_terminal() ==> (r matches Ok(
            (st, _),
        ) ==> st.wf()),
{
    match state {
        GameState::Ready(context) => deal_from_ready(context),
        GameState::DealerWins(_) | GameState::PlayerWins(_) | GameState::Draw(_) => {
            let start = Context::new_hand();
            let r = deal_from_ready(&start);
            proof {
                assert(fresh_start(start) && deal_ready_post(start, r));
            }
            r
        },
        GameState::WaitingForPlayer(_) => Err(GameError::InvalidState),
    }
}

fn stand_on_context(context: &Context) -> (r: Result<(GameState, Vec<Action>), GameError>)
    requires
        context.wf(),
        context.dealer_hand@.len() >= 2,
    ensures
        stand_post(*context, r),
        r matches Ok((st, _)) ==> st.wf(),
        r matches Ok((st, _)) ==> st.carried().cards_multiset() == context.cards_multiset(),
{
    let new_context = match context.play_dealer_hand() {
        Ok(c) => c,
        Err(_) => {
            return Err(GameError::EmptyDeck);
        },
    };
    let dealer_cards = new_context.dealer_hand.cards();
    let hole = new_context.dealer_hand.hole_card().unwrap();
    let mut actions = vec![Action::ShowDealerHoleCard(hole)];
    if dealer_cards.len() > 2 {
        let mut extra: Vec<Card> = Vec::new();
        let mut i: usize = 2;
        while i < dealer_cards.len()
            invariant
                2 <= i <= dealer_cards@.len(),
                extra@ == dealer_cards@.subrange(2, i as int),
            decreases dealer_cards@.len() - i,
        {
            extra.push(dealer_cards[i]);
            i = i + 1;
            proof {
                assert(extra@ =~= dealer_cards@.subrange(2, i as int));
            }
        }
        proof {
            assert(extra@ =~= dealer_cards@.skip(2));
        }
        actions.push(Action::NewDealerCards(extra));
    }
    let ghost base = actions@;
    if new_context.dealer_wins() {
        actions.insert(0, Action::DealerWins);
        proof {
            assert(actions@.skip(1) =~= base);
        }
        Ok((GameState::DealerWins(new_context), actions))
    } else if new_context.player_wins() {
        actions.insert(0, Action::PlayerWins);
        proof {
            assert(actions@.skip(1) =~= base);
        }
        Ok((GameState::PlayerWins(new_context), actions))
    } else if new_context.draw() {
        actions.insert(0, Action::Draw);
        proof {
            assert(actions@.skip(1) =~= base);
        }
        Ok((GameState::Draw(new_context), actions))
    } else {
        Ok((GameState::WaitingForPlayer(new_context), Vec::new()))
    }
}

/// Take one card. Valid only while waiting for the player: announce the
/// card; on a fresh twenty-one stand automatically; on a bust the dealer
/// wins and the hole card is revealed; otherwise keep waiting.
pub fn hit(state: &GameState) -> (r: Result<(GameState, Vec<Action>), GameError>)
    requires
        state.wf(),
    ensures
        !(state is WaitingForPlayer) <==> r == Result::<(GameState, Vec<Action>), GameError>::Err(
            GameError::InvalidState,
        ),
        state matches GameState::WaitingForPlayer(c) ==> hit_post(*c, r),
        state matches GameState::WaitingForPlayer(c) ==> (r matches Ok((st, _))
            ==> st.carried().cards_multiset() == c.cards_multiset()),
        state matches GameState::WaitingForPlayer(c) && full_table(*c) ==> (r matches Ok((st, _))
            ==> full_table(st.carried())),
        r matches Ok((st, _)) ==> st.wf(),
{
    if let GameState::WaitingForPlayer(context) = state {
        let new_context = match context.deal_player_card() {
            Ok(c) => c,
            Err(_) => {
                return Err(GameError::EmptyDeck);
            },
        };
        let player_cards = new_context.player_hand.cards();
        let dealt_card = player_cards[player_cards.len() - 1];
        if new_context.player_blackjack() {
            let (final_state, mut actions) = match stand_on_context(&new_context) {
                Ok(p) => p,
                Err(_) => {
                    return Err(GameError::EmptyDeck);
                },
            };
            let ghost stand_actions = actions@;
            actions.insert(0, Action::NewPlayerCard(dealt_card));
            proof {
                assert(actions@.skip(1) =~= stand_actions);
            }
            Ok((final_state, actions))
        } else if new_context.player_busts() {
            let hole = new_context.dealer_hand.hole_card().unwrap();
            let actions = vec![
                Action::NewPlayerCard(dealt_card),
                Action::DealerWins,
                Action::ShowDealerHoleCard(hole),
            ];
            Ok((GameState::DealerWins(new_context), actions))
        } else {
            let actions = vec![Action::NewPlayerCard(dealt_card)];
            Ok((GameState::WaitingForPlayer(new_context), actions))
        }
    } else {
        Err(GameError::InvalidState)
    }
}

/// Stand. Valid only while waiting for the player: the dealer plays out
/// its hand by house rule, the hole card is revealed, any drawn cards are
/// announced, and the round resolves.
pub fn stand(state: &GameState) -> (r: Result<(GameState, Vec<Action>), GameError>)
    requires
        state.wf(),
    ensures
        !(state is WaitingForPlayer) <==> r == Result::<(GameState, Vec<Action>), GameError>::Err(
            GameError::InvalidState,
        ),
        state matches GameState::WaitingForPlayer(c) ==> stand_post(*c, r),
        state matches GameState::WaitingForPlayer(c) ==> (r matches Ok((st, _))
            ==> st.carried().cards_multiset() == c.cards_multiset()),
        state matches GameState::WaitingForPlayer(c) && full_table(*c) ==> (r matches Ok((st, _))
            ==> full_table(st.carried())),
        r matches Ok((st, _)) ==> st.wf(),
{
    match state {
        GameState::WaitingForPlayer(context) => stand_on_context(context),
        _ => Err(GameError::InvalidState),
    }
}

} // verus!
