//! What a benchmark records: the last round of each game that was played,
//! and the time that the games took.

use chrono::{NaiveDateTime, TimeDelta};
use vstd::prelude::*;

use crate::game::response::{GuessResponse, Round};
use crate::game::{rounds_of, Game};
use crate::wlist::WordList;

verus! {

/// `chrono::NaiveDateTime`, a date with a time of day, without a time zone.
#[verifier::external_type_specification]
#[verifier::external_body]
pub struct ExNaiveDateTime(NaiveDateTime);

/// `chrono::TimeDelta`, the time between two moments.
#[verifier::external_type_specification]
#[verifier::external_body]
pub struct ExTimeDelta(TimeDelta);

/// The local date and time of the moment of the call, as `chrono::Local::now`
/// and `DateTime::naive_local` give it. Nothing is said of the value.
#[verifier::external_body]
fn now() -> NaiveDateTime {
    chrono::Local::now().naive_local()
}

/// The time from `start` to `end`, by the subtraction of `NaiveDateTime`.
/// Nothing is said of the value.
#[verifier::external_body]
fn between(start: NaiveDateTime, end: NaiveDateTime) -> TimeDelta {
    end - start
}

/// The `n`-th part of the time, by the division of `TimeDelta`, which does
/// not take zero as a divisor. Nothing is said of the value.
#[verifier::external_body]
fn part_of(time: TimeDelta, n: i32) -> TimeDelta
    requires
        n != 0,
{
    time / n
}

/// The record of a benchmark.
#[derive(Debug)]
pub struct Report {
    data: Vec<GuessResponse>,
    start: NaiveDateTime,
    end: Option<NaiveDateTime>,
    benchtime: Option<TimeDelta>,
    /// is the benchmark finished?
    finished: bool,
    max_steps: usize,
}

/// The record of a benchmark, as plain values.
pub ghost struct ReportView {
    /// The last round of each game, in the order in which they were added.
    pub data: Seq<Round>,
    /// Whether the record was closed, which gives it its time.
    pub finished: bool,
    /// The time that the benchmark took; a record has it once it is closed.
    pub benchtime: Option<TimeDelta>,
    /// How many guesses the games allowed.
    pub max_steps: usize,
}

/// How many of the first `n` rounds were won.
pub open spec fn wins(data: Seq<Round>, n: nat) -> nat
    decreases n,
{
    if n == 0 {
        0
    } else {
        wins(data, (n - 1) as nat) + if data[n - 1].won() {
            1nat
        } else {
            0nat
        }
    }
}

/// How many guesses came before the last one in the first `n` rounds, all
/// games together.
pub open spec fn steps(data: Seq<Round>, n: nat) -> nat
    decreases n,
{
    if n == 0 {
        0
    } else {
        steps(data, (n - 1) as nat) + if data[n - 1].step > 0 {
            (data[n - 1].step - 1) as nat
        } else {
            0nat
        }
    }
}

impl View for Report {
    type V = ReportView;

    closed spec fn view(&self) -> ReportView {
        ReportView {
            data: rounds_of(self.data@),
            finished: self.finished,
            benchtime: self.benchtime,
            max_steps: self.max_steps,
        }
    }
}

impl Clone for Report {
    fn clone(&self) -> (copy: Self)
        ensures
            copy@ == self@,
    {
        proof {
            use_type_invariant(self);
        }
        let mut data: Vec<GuessResponse> = Vec::new();
        let mut i: usize = 0;
        while i < self.data.len()
            invariant
                i <= self.data.len(),
                data.len() == i,
                forall|j: int| 0 <= j < i ==> (#[trigger] data[j])@ == self.data[j]@,
            decreases self.data.len() - i,
        {
            data.push(self.data[i].clone());
            i += 1;
        }
        assert(rounds_of(data@) =~= rounds_of(self.data@));
        Report {
            data,
            start: self.start,
            end: self.end,
            benchtime: self.benchtime,
            finished: self.finished,
            max_steps: self.max_steps,
        }
    }
}

impl Report {
    #[verifier::type_invariant]
    spec fn timed_when_finished(&self) -> bool {
        self.finished <==> self.benchtime is Some
    }

    /// The empty record of a benchmark that starts now, for games like the
    /// given one.
    pub fn new<WL: WordList>(example_game: Game<'_, WL>) -> (report: Self)
        ensures
            report@ == (ReportView {
                data: Seq::empty(),
                finished: false,
                benchtime: None,
                max_steps: example_game@.max_steps,
            }),
    {
        let report = Self {
            data: Vec::new(),
            start: now(),
            benchtime: None,
            end: None,
            finished: false,
            max_steps: example_game.max_steps(),
        };
        assert(report@.data =~= Seq::empty());
        report
    }

    /// Records the last round of one more game.
    pub fn add(&mut self, data: GuessResponse)
        ensures
            final(self)@ == (ReportView { data: old(self)@.data.push(data@), ..old(self)@ }),
    {
        proof {
            use_type_invariant(&*self);
        }
        let ghost before = rounds_of(self.data@);
        let mut all: Vec<GuessResponse> = Vec::new();
        std::mem::swap(&mut all, &mut self.data);
        all.push(data);
        assert(rounds_of(all@) =~= before.push(data@));
        self.data = all;
    }

    /// How many games were recorded.
    pub fn n(&self) -> (n: usize)
        ensures
            n == self@.data.len(),
    {
        self.data.len()
    }

    /// How many of the games were won.
    pub fn total_wins(&self) -> (total: usize)
        ensures
            total == wins(self@.data, self@.data.len()),
    {
        let mut total: usize = 0;
        let mut i: usize = 0;
        while i < self.data.len()
            invariant
                i <= self.data.len(),
                total == wins(self@.data, i as nat),
                total <= i,
            decreases self.data.len() - i,
        {
            if self.data[i].won() {
                total += 1;
            }
            i += 1;
        }
        total
    }

    /// How many guesses came before the last one, all games together; the
    /// greatest number where the count does not fit.
    pub fn total_steps(&self) -> (total: usize)
        ensures
            total == if steps(self@.data, self@.data.len()) <= usize::MAX {
                steps(self@.data, self@.data.len())
            } else {
                usize::MAX as nat
            },
    {
        let mut total: usize = 0;
        let mut i: usize = 0;
        while i < self.data.len()
            invariant
                i <= self.data.len(),
                total == if steps(self@.data, i as nat) <= usize::MAX {
                    steps(self@.data, i as nat)
                } else {
                    usize::MAX as nat
                },
            decreases self.data.len() - i,
        {
            let step = self.data[i].step();
            let before = if step > 0 {
                step - 1
            } else {
                0
            };
            total = if before <= usize::MAX - total {
                total + before
            } else {
                usize::MAX
            };
            i += 1;
        }
        total
    }

    /// The time that one game took on average; none where the record is not
    /// closed, where it is empty, and where it holds more games than the
    /// division takes.
    pub fn avg_time(&self) -> (time: Option<TimeDelta>)
        ensures
            time is Some <==> self@.finished && 0 < self@.data.len() <= i32::MAX,
    {
        proof {
            use_type_invariant(self);
        }
        if !self.finished {
            return None;
        }
        let n = self.data.len();
        if n == 0 || n > i32::MAX as usize {
            return None;
        }
        match self.benchtime {
            Some(time) => Some(part_of(time, n as i32)),
            None => None,
        }
    }

    /// finalize the record
    ///
    /// Sets the [benchtime](Report::benchtime) to the time since the record
    /// was made, and closes the record.
    pub fn finalize(&mut self)
        ensures
            final(self)@ == (ReportView {
                finished: true,
                benchtime: final(self)@.benchtime,
                ..old(self)@
            }),
            final(self)@.benchtime is Some,
    {
        proof {
            use_type_invariant(&*self);
        }
        let end = now();
        let time = between(self.start, end);
        let mut data: Vec<GuessResponse> = Vec::new();
        std::mem::swap(&mut data, &mut self.data);
        *self = Report {
            data,
            start: self.start,
            end: Some(end),
            benchtime: Some(time),
            finished: true,
            max_steps: self.max_steps,
        };
    }

    /// is the report finished?
    ///
    /// Will be true after the benchmark is done.
    pub fn finished(&self) -> (finished: bool)
        ensures
            finished == self@.finished,
    {
        self.finished
    }

    /// The time that the benchmark took, once the record is closed.
    pub fn benchtime(&self) -> (time: Option<TimeDelta>)
        ensures
            time == self@.benchtime,
            time is Some <==> self@.finished,
    {
        proof {
            use_type_invariant(self);
        }
        self.benchtime
    }

    pub fn max_steps(&self) -> (max_steps: usize)
        ensures
            max_steps == self@.max_steps,
    {
        self.max_steps
    }

    /// The last round of each game, in the order in which they were added.
    pub fn data(&self) -> (data: &Vec<GuessResponse>)
        ensures
            rounds_of(data@) == self@.data,
    {
        &self.data
    }
}

} // verus!
