use vstd::prelude::*;

use crate::wlist::WordList;

use super::Game;

verus! {

/// A pile of games that were played.
pub struct Summary<'wl, WL: WordList> {
    data: Vec<&'wl Game<'wl, WL>>,
}

impl<'wl, WL: WordList> View for Summary<'wl, WL> {
    type V = Seq<&'wl Game<'wl, WL>>;

    closed spec fn view(&self) -> Seq<&'wl Game<'wl, WL>> {
        self.data@
    }
}

impl<'wl, WL: WordList> Summary<'wl, WL> {
    pub fn new() -> (summary: Self)
        ensures
            summary@.len() == 0,
    {
        Self { data: Vec::new() }
    }

    /// The pile of the given games, the last one on top.
    pub fn from_games(games: &'wl Vec<Game<'wl, WL>>) -> (summary: Self)
        ensures
            summary@.len() == games.len(),
            forall|i: int| 0 <= i < games.len() ==> *(#[trigger] summary@[i]) == games[i],
    {
        let mut data: Vec<&'wl Game<'wl, WL>> = Vec::new();
        let mut i: usize = 0;
        while i < games.len()
            invariant
                i <= games.len(),
                data.len() == i,
                forall|j: int| 0 <= j < i ==> *(#[trigger] data[j]) == games[j],
            decreases games.len() - i,
        {
            data.push(&games[i]);
            i += 1;
        }
        Self { data }
    }

    /// How many games are on the pile.
    pub fn len(&self) -> (len: usize)
        ensures
            len == self@.len(),
    {
        self.data.len()
    }

    pub fn push(&mut self, game: &'wl Game<'wl, WL>)
        ensures
            final(self)@ == old(self)@.push(game),
    {
        self.data.push(game)
    }

    pub fn pop(&mut self) -> (game: Option<&'wl Game<'wl, WL>>)
        ensures
            match game {
                Some(last) => old(self)@.len() > 0 && last == old(self)@.last() && final(self)@
                    == old(self)@.drop_last(),
                None => old(self)@.len() == 0 && final(self)@ == old(self)@,
            },
    {
        self.data.pop()
    }
}

impl<'wl, WL: WordList> From<Vec<&'wl Game<'wl, WL>>> for Summary<'wl, WL> {
    fn from(value: Vec<&'wl Game<'wl, WL>>) -> (summary: Self) {
        Summary { data: value }
    }
}

impl<'wl, WL: WordList> vstd::std_specs::convert::FromSpecImpl<Vec<&'wl Game<'wl, WL>>> for Summary<'wl, WL> {
    open spec fn obeys_from_spec() -> bool {
        true
    }

    closed spec fn from_spec(value: Vec<&'wl Game<'wl, WL>>) -> Self {
        Summary { data: value }
    }
}

/// The pile that is made from games holds them as they are.
pub proof fn lemma_from_games<'wl, WL: WordList>(games: Vec<&'wl Game<'wl, WL>>)
    ensures
        <Summary<'wl, WL> as vstd::std_specs::convert::FromSpec<
            Vec<&'wl Game<'wl, WL>>,
        >>::from_spec(games)@ == games@,
{
}

} // verus!
