//! Cards, decks, outcomes and per-card progress.

use vstd::prelude::*;

pub mod engine;

verus! {

/// What a flashcard can do: hand out its two sides, and show each as text.
///
/// The accessors are pure: what they return is a function of the card alone.
pub trait Kadeu {
    type Front;

    type Back;

    /// The content of the front side.
    spec fn front_content(&self) -> Self::Front;

    /// The content of the back side.
    spec fn back_content(&self) -> Self::Back;

    /// The text that stands for the front side.
    spec fn front_text(&self) -> Seq<char>;

    /// The text that stands for the back side.
    spec fn back_text(&self) -> Seq<char>;

    /// The front side.
    fn front(&self) -> (content: &Self::Front)
        ensures
            *content == self.front_content(),
    ;

    /// The back side.
    fn back(&self) -> (content: &Self::Back)
        ensures
            *content == self.back_content(),
    ;

    /// The front side as text.
    fn display_front(&self) -> (text: String)
        ensures
            text@ == self.front_text(),
    ;

    /// The back side as text.
    fn display_back(&self) -> (text: String)
        ensures
            text@ == self.back_text(),
    ;
}

/// The outcome recorded for a card.
#[derive(Clone, Copy, Debug, PartialEq, Eq, Structural)]
pub enum Score {
    Hit,
    Miss,
}

impl Score {
    /// The display string of each outcome.
    pub open spec fn label(self) -> Seq<char> {
        match self {
            Score::Hit => "hit"@,
            Score::Miss => "miss"@,
        }
    }

    /// The display string of this outcome.
    pub fn to_string(&self) -> (text: String)
        ensures
            text@ == self.label(),
    {
        match self {
            Score::Hit => "hit".to_owned(),
            Score::Miss => "miss".to_owned(),
        }
    }
}

/// An item together with the outcome recorded for it, if any.
///
/// The outcome starts unset and is set at most once: `record` is the only
/// method that writes it, and it asks that none is there yet.
pub struct Progress<T> {
    item: T,
    score: Option<Score>,
}

impl<T> Progress<T> {
    /// The item this progress is about.
    pub closed spec fn subject(&self) -> T {
        self.item
    }

    /// The recorded outcome, if any.
    pub closed spec fn outcome(&self) -> Option<Score> {
        self.score
    }

    /// A progress for `item` with no outcome yet.
    pub fn new(item: T) -> (progress: Self)
        ensures
            progress.subject() == item,
            progress.outcome() is None,
    {
        Progress { item, score: None }
    }

    /// The item this progress is about.
    pub fn item(&self) -> (item: &T)
        ensures
            *item == self.subject(),
    {
        &self.item
    }

    /// Whether an outcome has been recorded.
    pub fn has_score(&self) -> (scored: bool)
        ensures
            scored == self.outcome().is_some(),
    {
        self.score.is_some()
    }

    /// The recorded outcome, if any.
    pub fn score(&self) -> (score: Option<&Score>)
        ensures
            match score {
                Some(s) => self.outcome() == Some(*s),
                None => self.outcome() is None,
            },
    {
        if let Some(score) = &self.score {
            Some(score)
        } else {
            None
        }
    }

    /// Records the outcome of a progress that has none yet.
    pub fn record(&mut self, outcome: Score)
        requires
            old(self).outcome() is None,
        ensures
            final(self).outcome() == Some(outcome),
            final(self).subject() == old(self).subject(),
    {
        self.score = Some(outcome);
    }

    /// Gives the item and its outcome back.
    pub fn into_parts(self) -> (parts: (T, Option<Score>))
        ensures
            parts.0 == self.subject(),
            parts.1 == self.outcome(),
    {
        (self.item, self.score)
    }
}

/// A card: a front and a back, fixed when the card is made. Two cards with
/// the same sides are the same card.
#[derive(Clone, Debug, PartialEq, Eq)]
pub struct Card<Front, Back> {
    front: Front,
    back: Back,
}

impl<Front, Back> Card<Front, Back> {
    /// The two sides of the card.
    pub closed spec fn sides(&self) -> (Front, Back) {
        (self.front, self.back)
    }

    /// The card with these two sides.
    pub fn new(front: Front, back: Back) -> (card: Self)
        ensures
            card.sides() == (front, back),
    {
        Card { front, back }
    }
}

/// A card of two strings shows each side as it is.
impl Kadeu for Card<String, String> {
    type Front = String;

    type Back = String;

    open spec fn front_content(&self) -> String {
        self.sides().0
    }

    open spec fn back_content(&self) -> String {
        self.sides().1
    }

    open spec fn front_text(&self) -> Seq<char> {
        self.sides().0@
    }

    open spec fn back_text(&self) -> Seq<char> {
        self.sides().1@
    }

    fn front(&self) -> &String {
        &self.front
    }

    fn back(&self) -> &String {
        &self.back
    }

    fn display_front(&self) -> String {
        self.front.clone()
    }

    fn display_back(&self) -> String {
        self.back.clone()
    }
}

/// What a `Deck` holds.
pub struct DeckView<T> {
    pub title: Seq<char>,
    pub cards: Seq<T>,
}

/// A titled deck of cards in a fixed order.
pub struct Deck<T> {
    title: String,
    cards: Vec<T>,
}

impl<T> View for Deck<T> {
    type V = DeckView<T>;

    closed spec fn view(&self) -> DeckView<T> {
        DeckView { title: self.title@, cards: self.cards@ }
    }
}

impl<T> Deck<T> {
    /// The deck `title` of `cards`, in their order.
    pub fn new(title: &str, cards: Vec<T>) -> (deck: Self)
        ensures
            deck@ == (DeckView { title: title@, cards: cards@ }),
    {
        Deck { title: title.to_owned(), cards }
    }

    /// The deck's title.
    pub fn title(&self) -> (title: &str)
        ensures
            title@ == self@.title,
    {
        self.title.as_str()
    }

    /// The number of cards.
    pub fn len(&self) -> (count: usize)
        ensures
            count == self@.cards.len(),
    {
        self.cards.len()
    }

    /// The deck's title and its cards, in their order.
    pub fn into_parts(self) -> (parts: (String, Vec<T>))
        ensures
            parts.0@ == self@.title,
            parts.1@ == self@.cards,
    {
        (self.title, self.cards)
    }
}

} // verus!
