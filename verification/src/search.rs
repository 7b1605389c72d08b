//! What is said and searched when a source of sensors fails, and how often.

use vstd::prelude::*;

verus! {

/// A notice that is given once, until it is withdrawn.
pub struct Notice {
    pub given: bool,
}

impl Notice {
    /// Whether to give the notice now: only where it has not been given.
    pub fn give(&mut self) -> (now: bool)
        ensures
            now == !old(self).given,
            final(self).given,
    {
        let now = !self.given;
        self.given = true;
        now
    }

    /// Withdraws the notice, so that it can be given again.
    pub fn withdraw(&mut self)
        ensures
            !final(self).given,
    {
        self.given = false;
    }
}

/// How the rounds of looking for shared memory went so far: whether the last one was a
/// failure, and whether the object manager has been searched.
pub struct Search {
    pub warned: bool,
    pub scanned: bool,
}

/// How a round of looking for shared memory ends.
pub enum Round {
    /// It was opened under one of the names.
    Opened,
    /// It could be opened under none.
    Failed,
}

impl Search {
    /// The state after a round.
    pub open spec fn after(self, round: Round) -> Search {
        match round {
            Round::Opened => Search { warned: false, ..self },
            Round::Failed => Search { warned: true, scanned: true },
        }
    }

    /// The state after a series of rounds.
    pub open spec fn after_all(self, rounds: Seq<Round>) -> Search
        decreases rounds.len(),
    {
        if rounds.len() == 0 {
            self
        } else {
            self.after_all(rounds.drop_last()).after(rounds.last())
        }
    }

    /// Whether the object manager is searched at the end of a round.
    pub open spec fn scans_at(self, round: Round) -> bool {
        round is Failed && !self.scanned
    }

    /// How often the object manager is searched in a series of rounds.
    pub open spec fn scans(self, rounds: Seq<Round>) -> nat
        decreases rounds.len(),
    {
        if rounds.len() == 0 {
            0
        } else {
            self.scans(rounds.drop_last()) + if self.after_all(rounds.drop_last()).scans_at(
                rounds.last(),
            ) {
                1nat
            } else {
                0nat
            }
        }
    }

    /// No round so far.
    pub fn new() -> (search: Search)
        ensures
            search == (Search { warned: false, scanned: false }),
    {
        Search { warned: false, scanned: false }
    }

    /// Whether the failed attempts of the next round are reported: only where the round
    /// before was no failure.
    pub fn reports(&self) -> (b: bool)
        ensures
            b == !self.warned,
    {
        !self.warned
    }

    /// Takes note of a round in which shared memory was opened.
    pub fn opened(&mut self)
        ensures
            *final(self) == old(self).after(Round::Opened),
    {
        self.warned = false;
    }

    /// Takes note of a round in which it could not be opened, and returns whether the
    /// object manager is to be searched now.
    pub fn failed(&mut self) -> (scan: bool)
        ensures
            *final(self) == old(self).after(Round::Failed),
            scan == old(self).scans_at(Round::Failed),
    {
        let scan = !self.scanned;
        self.warned = true;
        self.scanned = true;
        scan
    }
}

/// However the rounds end, the object manager is searched at most once, and once only
/// where a round has failed and it had not been searched before.
pub proof fn law_scans_at_most_once(search: Search, rounds: Seq<Round>)
    ensures
        search.scans(rounds) <= 1,
        search.scans(rounds) == 1 <==> !search.scanned && search.after_all(rounds).scanned,
        search.after_all(rounds).scanned <==> search.scanned || exists|i: int|
            0 <= i < rounds.len() && #[trigger] rounds[i] is Failed,
    decreases rounds.len(),
{
    if rounds.len() > 0 {
        let rest = rounds.drop_last();
        law_scans_at_most_once(search, rest);
        let last = rounds.len() - 1;
        assert(forall|i: int| 0 <= i < last ==> rest[i] == #[trigger] rounds[i]);
        if exists|i: int| 0 <= i < rest.len() && #[trigger] rest[i] is Failed {
            let i = choose|i: int| 0 <= i < rest.len() && #[trigger] rest[i] is Failed;
            assert(rounds[i] is Failed);
        }
        assert(rounds[last] == rounds.last());
    }
}

/// Failures are reported for the first of several failed rounds in a row, and again once
/// a round in between has succeeded.
pub proof fn law_failures_are_reported_once(search: Search, rounds: Seq<Round>)
    requires
        rounds.len() > 0,
    ensures
        search.after_all(rounds).warned == (rounds.last() is Failed),
{
}

} // verus!
