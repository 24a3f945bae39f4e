//! The study session: the order in which cards come up, and the state
//! machine that ties revealing, scoring and moving on together.

use crate::game::{Deck, Kadeu, Progress, Score};
use crate::ui::{CardSide, CardSideView, SlideShow};
use std::collections::VecDeque;
use vstd::prelude::*;

verus! {

/// The card that a sequence with `pending` cards hands out next.
pub open spec fn first_of<T>(pending: Seq<T>) -> Option<T> {
    if pending.len() > 0 {
        Some(pending[0])
    } else {
        None
    }
}

/// The cards that are left once the next one has been handed out.
pub open spec fn rest_of<T>(pending: Seq<T>) -> Seq<T> {
    if pending.len() > 0 {
        pending.subrange(1, pending.len() as int)
    } else {
        pending
    }
}

/// The cards that are left after `calls` cards have been asked for.
pub open spec fn left_after<T>(pending: Seq<T>, calls: nat) -> Seq<T>
    decreases calls,
{
    if calls == 0 {
        pending
    } else {
        rest_of(left_after(pending, (calls - 1) as nat))
    }
}

/// A strategy that hands out the cards of a collection one by one: each card
/// once, the sequence used up after as many calls as there were cards.
pub trait Sequencer {
    type Card;

    /// The cards not handed out yet, in the order in which they will come.
    spec fn pending(&self) -> Seq<Self::Card>;

    /// Hands out the next card, or `None` once the sequence is exhausted.
    fn next_card(&mut self) -> (card: Option<Self::Card>)
        ensures
            card == first_of(old(self).pending()),
            final(self).pending() == rest_of(old(self).pending()),
    ;
}

/// The strategy that keeps the order of the collection it was given.
pub struct Linear<T> {
    cards: SlideShow<T>,
}

impl<T> Linear<T> {
    /// The cards still waiting, the next one first.
    pub closed spec fn waiting(&self) -> Seq<T> {
        Seq::new(self.cards@.len(), |i: int| *self.cards@[i])
    }

    /// A sequence over `cards`, in their order.
    pub fn new(cards: Vec<T>) -> (sequence: Self)
        ensures
            sequence.pending() == cards@,
    {
        let mut cards = cards;
        let ghost all = cards@;
        let mut queue: SlideShow<T> = VecDeque::new();
        loop
            invariant
                cards@.len() + queue@.len() == all.len(),
                forall|i: int| 0 <= i < cards@.len() ==> cards@[i] == all[i],
                forall|i: int|
                    0 <= i < queue@.len() ==> *(#[trigger] queue@[i]) == all[cards@.len() + i],
            ensures
                cards@.len() == 0,
            decreases cards@.len(),
        {
            match cards.pop() {
                Some(card) => {
                    queue.push_front(Box::new(card));
                },
                None => {
                    break ;
                },
            }
        }
        let sequence = Linear { cards: queue };
        assert(sequence.waiting() =~= all);
        sequence
    }
}

/// A linear sequence hands out what is waiting, front first.
impl<T> Sequencer for Linear<T> {
    type Card = T;

    open spec fn pending(&self) -> Seq<T> {
        self.waiting()
    }

    fn next_card(&mut self) -> (card: Option<T>) {
        let next = self.cards.pop_front();
        assert(self.waiting() =~= rest_of(old(self).waiting()));
        match next {
            Some(card) => Some(*card),
            None => None,
        }
    }
}

/// Asks `sequencer` for cards until it has none left.
pub fn run_out<S: Sequencer>(sequencer: &mut S) -> (cards: Vec<S::Card>)
    ensures
        cards@ == old(sequencer).pending(),
        final(sequencer).pending().len() == 0,
{
    let mut cards: Vec<S::Card> = Vec::new();
    loop
        invariant
            cards@ + sequencer.pending() == old(sequencer).pending(),
        ensures
            cards@ == old(sequencer).pending(),
            sequencer.pending().len() == 0,
        decreases sequencer.pending().len(),
    {
        let ghost before = sequencer.pending();
        match sequencer.next_card() {
            Some(card) => {
                cards.push(card);
                assert(cards@ + sequencer.pending() =~= old(sequencer).pending()) by {
                    assert(before =~= seq![before[0]] + rest_of(before));
                }
            },
            None => {
                assert(cards@ =~= cards@ + sequencer.pending());
                break ;
            },
        }
    }
    cards
}

/// A sequence hands out its pending cards in their order, one for each
/// call, and has none left from then on. Over an empty collection it is
/// exhausted at the first call.
pub proof fn lemma_sequence_order<T>(pending: Seq<T>, calls: nat)
    ensures
        left_after(pending, calls) == if calls <= pending.len() {
            pending.subrange(calls as int, pending.len() as int)
        } else {
            Seq::<T>::empty()
        },
        calls < pending.len() ==> first_of(left_after(pending, calls)) == Some(
            pending[calls as int],
        ),
        calls >= pending.len() ==> first_of(left_after(pending, calls)) is None,
    decreases calls,
{
    if calls == 0 {
        assert(pending.subrange(0, pending.len() as int) =~= pending);
    } else {
        lemma_sequence_order(pending, (calls - 1) as nat);
        let before = left_after(pending, (calls - 1) as nat);
        if calls <= pending.len() {
            assert(rest_of(before) =~= pending.subrange(calls as int, pending.len() as int));
        } else {
            assert(rest_of(before) =~= Seq::<T>::empty());
        }
    }
}

/// A sequence over no cards is exhausted from the first call on.
pub proof fn lemma_empty_sequence_is_exhausted<T>(calls: nat)
    ensures
        first_of(left_after(Seq::<T>::empty(), calls)) is None,
        left_after(Seq::<T>::empty(), calls) == Seq::<T>::empty(),
{
    lemma_sequence_order(Seq::<T>::empty(), calls);
    assert(Seq::<T>::empty().subrange(0, 0) =~= Seq::<T>::empty());
}

/// Where a session stands: at a card's front, at its back, at the end of the
/// sequence, or closed by the user.
#[derive(Clone, Copy, Debug, PartialEq, Eq, Structural)]
pub enum SessionState {
    FrontShown,
    BackShown,
    Finished,
    Closed,
}

/// What the user can ask of a session.
#[derive(Clone, Copy, Debug, PartialEq, Eq, Structural)]
pub enum Event {
    Reveal,
    Score(Score),
    Advance,
    Restart,
    Quit,
}

/// How many cards were scored a hit and how many a miss.
#[derive(Clone, Copy, Debug, PartialEq, Eq, Structural)]
pub struct Summary {
    pub hit: usize,
    pub miss: usize,
}

/// What the owner of a session does after an event that the session took.
#[derive(Clone, Copy, Debug, PartialEq, Eq, Structural)]
pub enum Effect {
    /// Go on with the card on show.
    Continue,
    /// The sequence is exhausted: publish the summary.
    Summary(Summary),
    /// Start the session again over a fresh sequence.
    Restart,
    /// Leave.
    Exit,
}

/// Why a session did not take an event.
#[derive(Clone, Copy, Debug, PartialEq, Eq, Structural)]
pub enum SessionError {
    /// The event is not allowed in the state the session is in.
    InvalidTransition,
}

/// How many of `done` have the outcome `which`.
pub open spec fn count_of<C>(done: Seq<(C, Score)>, which: Score) -> nat
    decreases done.len(),
{
    if done.len() == 0 {
        0
    } else {
        count_of(done.drop_last(), which) + if done.last().1 == which {
            1nat
        } else {
            0nat
        }
    }
}

/// A session as far as its behaviour goes.
pub struct SessionModel<C> {
    pub state: SessionState,
    /// The card on show.
    pub current: Option<C>,
    /// The outcome recorded for the card on show.
    pub outcome: Option<Score>,
    /// The cards that were scored and left behind, in their order.
    pub done: Seq<(C, Score)>,
    /// The cards still to come.
    pub pending: Seq<C>,
}

impl<C> SessionModel<C> {
    /// A card is on show in the two card states and in no other; only a
    /// revealed card has an outcome; a finished session has no card to come.
    pub open spec fn wf(self) -> bool {
        &&& (self.state == SessionState::FrontShown || self.state == SessionState::BackShown)
            <==> self.current is Some
        &&& self.outcome is Some ==> self.state == SessionState::BackShown
        &&& self.state == SessionState::Finished ==> self.pending.len() == 0
    }

    /// Whether the session is in progress: a card is on show.
    pub open spec fn in_progress(self) -> bool {
        self.state == SessionState::FrontShown || self.state == SessionState::BackShown
    }

    /// The session that has just drawn its first card from `pending`.
    pub open spec fn begin(pending: Seq<C>) -> Self {
        SessionModel {
            state: if pending.len() > 0 {
                SessionState::FrontShown
            } else {
                SessionState::Finished
            },
            current: first_of(pending),
            outcome: None,
            done: Seq::empty(),
            pending: rest_of(pending),
        }
    }

    /// Whether `event` is allowed: revealing while a card is on show, scoring
    /// a revealed card that has no outcome yet, advancing from a card that
    /// has one, restarting a finished session, and quitting at any time.
    pub open spec fn allows(self, event: Event) -> bool {
        match event {
            Event::Reveal => self.state == SessionState::FrontShown || self.state
                == SessionState::BackShown,
            Event::Score(_) => self.state == SessionState::BackShown && self.outcome is None,
            Event::Advance => self.state == SessionState::BackShown && self.outcome is Some,
            Event::Restart => self.state == SessionState::Finished,
            Event::Quit => true,
        }
    }

    /// The scored cards, the card on show among them if it has an outcome.
    pub open spec fn settled(self) -> Seq<(C, Score)> {
        match (self.current, self.outcome) {
            (Some(card), Some(outcome)) => self.done.push((card, outcome)),
            _ => self.done,
        }
    }

    /// The session after `event`. An event that is not allowed changes
    /// nothing; nor does `Restart`, which is the owner's to carry out.
    pub open spec fn step(self, event: Event) -> Self {
        if !self.allows(event) {
            self
        } else {
            match event {
                Event::Reveal => SessionModel { state: SessionState::BackShown, ..self },
                Event::Score(outcome) => SessionModel { outcome: Some(outcome), ..self },
                Event::Advance => SessionModel {
                    state: if self.pending.len() > 0 {
                        SessionState::FrontShown
                    } else {
                        SessionState::Finished
                    },
                    current: first_of(self.pending),
                    outcome: None,
                    done: self.settled(),
                    pending: rest_of(self.pending),
                },
                Event::Restart => self,
                Event::Quit => SessionModel {
                    state: SessionState::Closed,
                    current: None,
                    outcome: None,
                    done: self.settled(),
                    ..self
                },
            }
        }
    }

    /// The hits and the misses among the cards left behind.
    pub open spec fn summary(self) -> Summary {
        Summary {
            hit: count_of(self.done, Score::Hit) as usize,
            miss: count_of(self.done, Score::Miss) as usize,
        }
    }

    /// What the owner does after an allowed `event`.
    pub open spec fn effect(self, event: Event) -> Effect {
        match event {
            Event::Reveal => Effect::Continue,
            Event::Score(_) => Effect::Continue,
            Event::Advance => if self.pending.len() > 0 {
                Effect::Continue
            } else {
                Effect::Summary(self.step(event).summary())
            },
            Event::Restart => Effect::Restart,
            Event::Quit => Effect::Exit,
        }
    }

    /// What a session answers to `event`.
    pub open spec fn answer(self, event: Event) -> Result<Effect, SessionError> {
        if self.allows(event) {
            Ok(self.effect(event))
        } else {
            Err(SessionError::InvalidTransition)
        }
    }
}

/// The text on show: the front of the current card until it is revealed, its back after.
pub open spec fn shown<C: Kadeu>(session: SessionModel<C>) -> Option<Seq<char>> {
    match session.current {
        Some(card) => Some(
            if session.state == SessionState::BackShown {
                card.back_text()
            } else {
                card.front_text()
            },
        ),
        None => None,
    }
}

/// The session after `times` events `Reveal` in a row.
pub open spec fn revealed_times<C>(session: SessionModel<C>, times: nat) -> SessionModel<C>
    decreases times,
{
    if times == 0 {
        session
    } else {
        revealed_times(session, (times - 1) as nat).step(Event::Reveal)
    }
}

/// A study session over the cards of a sequencer.
pub struct Session<S: Sequencer> {
    sequencer: S,
    title: Option<String>,
    current: Option<Progress<S::Card>>,
    revealed: bool,
    closed: bool,
    finished: Vec<Progress<S::Card>>,
}

impl<S: Sequencer> View for Session<S> {
    type V = SessionModel<S::Card>;

    closed spec fn view(&self) -> SessionModel<S::Card> {
        SessionModel {
            state: if self.closed {
                SessionState::Closed
            } else if self.current is None {
                SessionState::Finished
            } else if self.revealed {
                SessionState::BackShown
            } else {
                SessionState::FrontShown
            },
            current: match self.current {
                Some(progress) => Some(progress.subject()),
                None => None,
            },
            outcome: match self.current {
                Some(progress) => progress.outcome(),
                None => None,
            },
            done: Seq::new(
                self.finished@.len(),
                |i: int| (self.finished@[i].subject(), self.finished@[i].outcome()->0),
            ),
            pending: self.sequencer.pending(),
        }
    }
}

impl<S: Sequencer> Session<S> {
    /// What every session keeps: a closed one shows no card, an outcome
    /// stands only on a revealed card, every card left behind has an
    /// outcome, and a session without a card is closed or at its end.
    pub closed spec fn inv(&self) -> bool {
        &&& self.closed ==> self.current is None
        &&& (self.current matches Some(progress) && progress.outcome() is Some) ==> self.revealed
        &&& forall|i: int|
            0 <= i < self.finished@.len() ==> (#[trigger] self.finished@[i]).outcome() is Some
        &&& (!self.closed && self.current is None) ==> self.sequencer.pending().len() == 0
    }

    /// The title of the deck that the session runs over.
    pub closed spec fn deck_title(&self) -> Option<Seq<char>> {
        self.title.deep_view()
    }

    /// Starts a session: the first card of `sequencer` comes up, front
    /// first; without a first card the session is finished at once.
    pub fn begin(sequencer: S, title: Option<String>) -> (session: Self)
        ensures
            session.inv(),
            session@.wf(),
            session@ == SessionModel::begin(sequencer.pending()),
            session.deck_title() == title.deep_view(),
    {
        let mut sequencer = sequencer;
        let current: Option<Progress<S::Card>> = match sequencer.next_card() {
            Some(card) => Some(Progress::new(card)),
            None => None,
        };
        let session = Session {
            sequencer,
            title,
            current,
            revealed: false,
            closed: false,
            finished: Vec::new(),
        };
        assert(session@.done =~= Seq::empty());
        session
    }

    /// Where the session stands.
    pub fn state(&self) -> (state: SessionState)
        ensures
            state == self@.state,
    {
        if self.closed {
            SessionState::Closed
        } else if self.current.is_none() {
            SessionState::Finished
        } else if self.revealed {
            SessionState::BackShown
        } else {
            SessionState::FrontShown
        }
    }

    /// Whether the session is in progress: a card is on show.
    pub fn in_progress(&self) -> (going: bool)
        ensures
            going == self@.in_progress(),
    {
        !self.closed && self.current.is_some()
    }

    /// The progress of the card on show.
    pub fn current(&self) -> (progress: Option<&Progress<S::Card>>)
        ensures
            match progress {
                Some(p) => self@.current == Some(p.subject()) && self@.outcome == p.outcome(),
                None => self@.current is None,
            },
    {
        self.current.as_ref()
    }

    /// The cards left behind, each with its outcome, in their order.
    pub fn finished(&self) -> (finished: &Vec<Progress<S::Card>>)
        requires
            self.inv(),
        ensures
            finished@.len() == self@.done.len(),
            forall|i: int|
                0 <= i < finished@.len() ==> (#[trigger] finished@[i]).subject()
                    == self@.done[i].0 && finished@[i].outcome() == Some(self@.done[i].1),
    {
        &self.finished
    }

    /// Counts the hits and the misses among the cards left behind.
    pub fn summary(&self) -> (summary: Summary)
        requires
            self.inv(),
        ensures
            summary == self@.summary(),
            summary.hit + summary.miss == self@.done.len(),
    {
        let ghost done = self@.done;
        let mut hit: usize = 0;
        let mut miss: usize = 0;
        let mut i: usize = 0;
        while i < self.finished.len()
            invariant
                self.inv(),
                done == self@.done,
                done.len() == self.finished@.len(),
                i <= self.finished@.len(),
                hit == count_of(done.take(i as int), Score::Hit),
                miss == count_of(done.take(i as int), Score::Miss),
                hit <= i,
                miss <= i,
            decreases self.finished@.len() - i,
        {
            proof {
                assert(done.take(i as int + 1).drop_last() =~= done.take(i as int));
                assert(done.take(i as int + 1).last() == done[i as int]);
            }
            match self.finished[i].score() {
                Some(Score::Hit) => {
                    hit = hit + 1;
                },
                Some(Score::Miss) => {
                    miss = miss + 1;
                },
                None => {},
            }
            i = i + 1;
        }
        proof {
            assert(done.take(done.len() as int) =~= done);
            lemma_summary_total(done);
        }
        Summary { hit, miss }
    }

    /// Takes `event` if the state allows it, and says what to do next. An
    /// event that is not allowed is refused and changes nothing.
    pub fn step(&mut self, event: Event) -> (result: Result<Effect, SessionError>)
        requires
            old(self).inv(),
        ensures
            final(self).inv(),
            final(self)@.wf(),
            final(self)@ == old(self)@.step(event),
            result == old(self)@.answer(event),
            final(self).deck_title() == old(self).deck_title(),
    {
        match event {
            Event::Reveal => {
                if self.closed || self.current.is_none() {
                    Err(SessionError::InvalidTransition)
                } else {
                    self.revealed = true;
                    Ok(Effect::Continue)
                }
            },
            Event::Score(outcome) => {
                match self.current.take() {
                    Some(progress) => {
                        if self.revealed && !progress.has_score() {
                            let mut progress = progress;
                            progress.record(outcome);
                            self.current = Some(progress);
                            Ok(Effect::Continue)
                        } else {
                            self.current = Some(progress);
                            Err(SessionError::InvalidTransition)
                        }
                    },
                    None => Err(SessionError::InvalidTransition),
                }
            },
            Event::Advance => {
                match self.current.take() {
                    Some(progress) => {
                        if progress.has_score() {
                            self.finished.push(progress);
                            match self.sequencer.next_card() {
                                Some(card) => {
                                    self.current = Some(Progress::new(card));
                                    self.revealed = false;
                                    assert(self@.done =~= old(self)@.settled());
                                    Ok(Effect::Continue)
                                },
                                None => {
                                    assert(self@.done =~= old(self)@.settled());
                                    Ok(Effect::Summary(self.summary()))
                                },
                            }
                        } else {
                            self.current = Some(progress);
                            Err(SessionError::InvalidTransition)
                        }
                    },
                    None => Err(SessionError::InvalidTransition),
                }
            },
            Event::Restart => {
                if !self.closed && self.current.is_none() {
                    Ok(Effect::Restart)
                } else {
                    Err(SessionError::InvalidTransition)
                }
            },
            Event::Quit => {
                match self.current.take() {
                    Some(progress) => {
                        if progress.has_score() {
                            self.finished.push(progress);
                        }
                    },
                    None => {},
                }
                self.closed = true;
                assert(self@.done =~= old(self)@.settled());
                Ok(Effect::Exit)
            },
        }
    }

    /// Starts a finished session again over `sequencer`. In any other state
    /// the session refuses and stays as it is.
    pub fn restart(&mut self, sequencer: S) -> (result: Result<(), SessionError>)
        requires
            old(self).inv(),
        ensures
            final(self).inv(),
            final(self)@.wf(),
            final(self).deck_title() == old(self).deck_title(),
            old(self)@.state == SessionState::Finished ==> result is Ok && final(self)@
                == SessionModel::begin(sequencer.pending()),
            old(self)@.state != SessionState::Finished ==> result is Err && final(self)@ == old(
                self,
            )@,
    {
        if self.closed || self.current.is_some() {
            return Err(SessionError::InvalidTransition);
        }
        let mut sequencer = sequencer;
        let current: Option<Progress<S::Card>> = match sequencer.next_card() {
            Some(card) => Some(Progress::new(card)),
            None => None,
        };
        self.sequencer = sequencer;
        self.current = current;
        self.revealed = false;
        self.finished = Vec::new();
        assert(self@.done =~= Seq::empty());
        Ok(())
    }
}

impl<T> Session<Linear<T>> {
    /// Starts a session that goes through `deck` in its order.
    pub fn over(deck: Deck<T>) -> (session: Self)
        ensures
            session.inv(),
            session@.wf(),
            session@ == SessionModel::begin(deck@.cards),
            session.deck_title() == Some(deck@.title),
    {
        let (title, cards) = deck.into_parts();
        Session::begin(Linear::new(cards), Some(title))
    }
}

impl<S: Sequencer> Session<S> where S::Card: Kadeu {
    /// The card on show as a widget: its two sides as text, the deck's
    /// title, and the back revealed or not as the session stands.
    pub fn card_side(&self) -> (side: Option<CardSide>)
        ensures
            match side {
                Some(side) => self@.current matches Some(card) && side@ == (CardSideView {
                    deck_title: self.deck_title(),
                    front: card.front_text(),
                    back: card.back_text(),
                    revealed: self@.state == SessionState::BackShown,
                }) && Some(side@.displayed()) == shown(self@),
                None => self@.current is None,
            },
    {
        match &self.current {
            Some(progress) => {
                let card: &S::Card = progress.item();
                let mut side: CardSide = CardSide::new(card.display_front(), card.display_back());
                if let Some(title) = &self.title {
                    side = side.with_title(title.as_str());
                }
                if self.revealed && !self.closed {
                    side.reveal_back();
                }
                Some(side)
            },
            None => None,
        }
    }
}

/// Every step keeps a well-formed session well-formed, and so does a start.
pub proof fn lemma_step_keeps_wf<C>(session: SessionModel<C>, event: Event, pending: Seq<C>)
    requires
        session.wf(),
    ensures
        session.step(event).wf(),
        SessionModel::begin(pending).wf(),
{
}

/// A card has no outcome when it comes up. The first `Score` on a revealed
/// card records its outcome; a second `Score` is refused and changes nothing,
/// and until the session advances no other event changes the outcome either.
pub proof fn lemma_outcome_recorded_once<C>(
    session: SessionModel<C>,
    pending: Seq<C>,
    first: Score,
    second: Score,
    other: Event,
)
    requires
        session.wf(),
    ensures
        SessionModel::begin(pending).outcome is None,
        session.allows(Event::Advance) ==> session.step(Event::Advance).outcome is None,
        session.outcome is None && !(other is Score) ==> session.step(other).outcome is None,
        session.allows(Event::Score(first)) ==> {
            let scored = session.step(Event::Score(first));
            &&& scored.outcome == Some(first)
            &&& scored.current == session.current
            &&& scored.answer(Event::Score(second)) == Err::<Effect, SessionError>(
                SessionError::InvalidTransition,
            )
            &&& scored.step(Event::Score(second)) == scored
            &&& other != Event::Advance && other != Event::Quit ==> scored.step(other).outcome
                == Some(first)
        },
{
}

/// A card that has just come up shows its front. One `Reveal` shows its
/// back, and so does any number of them.
pub proof fn lemma_flip_state<C: Kadeu>(session: SessionModel<C>, pending: Seq<C>, times: nat)
    requires
        session.wf(),
    ensures
        pending.len() > 0 ==> SessionModel::begin(pending).state == SessionState::FrontShown
            && shown(SessionModel::begin(pending)) == Some(pending[0].front_text()),
        session.allows(Event::Advance) && session.pending.len() > 0 ==> session.step(
            Event::Advance,
        ).state == SessionState::FrontShown && shown(session.step(Event::Advance)) == Some(
            session.pending[0].front_text(),
        ),
        session.state == SessionState::FrontShown ==> shown(session) == Some(
            session.current->0.front_text(),
        ),
        session.state == SessionState::FrontShown && times >= 1 ==> revealed_times(
            session,
            times,
        ).state == SessionState::BackShown && revealed_times(session, times).current
            == session.current && shown(revealed_times(session, times)) == Some(
            session.current->0.back_text(),
        ),
    decreases times,
{
    if session.state == SessionState::FrontShown && times >= 1 {
        if times == 1 {
            assert(revealed_times(session, 0) == session);
        } else {
            lemma_flip_state(session, pending, (times - 1) as nat);
        }
    }
}

/// Every card left behind counts once, as a hit or as a miss.
pub proof fn lemma_summary_total<C>(done: Seq<(C, Score)>)
    ensures
        count_of(done, Score::Hit) + count_of(done, Score::Miss) == done.len(),
    decreases done.len(),
{
    if done.len() > 0 {
        lemma_summary_total(done.drop_last());
    }
}

} // verus!
