//! One turn of the reactor: the jobs that run are polled and acted on; on a slow turn the engine's
//! status and balance follow, and previews that are too old expire. The turn says what the engine
//! is to be asked, takes the answer, and acts on it.

use vstd::prelude::*;

use crate::backend::jobs::{job_step, polls_of, step_of, JobStep, JobStepView};
use crate::backend::watch::{balance_json, balance_or_zero, wants_balance};
use crate::backend::{engine_outcome, engine_result, told, Backend, BackendView, Event, EventView};
use crate::json::{outcome_view, text_of_json, Json, JsonView};
use crate::model::sends::{after_expiry, request_ids};
use crate::ordered::one_list;

verus! {

// ---------------------------------------------------------------------------------------------
// Questions and answers
// ---------------------------------------------------------------------------------------------

/// What the engine is to be asked next. A job goes by the engine's id and receipt of it.
#[derive(Debug)]
pub enum Ask {
    JobStatus(String, String),
    JobResult(String, String),
    /// That the end of a job was noticed; the answer does not matter.
    Acknowledge(String, String),
    Status,
    /// The balance and the unlocked balance of the first account.
    Balance,
    /// Nothing: the turn is over.
    Rest,
}

/// What an `Ask` says.
pub enum AskView {
    JobStatus(Seq<char>, Seq<char>),
    JobResult(Seq<char>, Seq<char>),
    Acknowledge(Seq<char>, Seq<char>),
    Status,
    Balance,
    Rest,
}

impl View for Ask {
    type V = AskView;

    open spec fn view(&self) -> AskView {
        match self {
            Ask::JobStatus(id, receipt) => AskView::JobStatus(id@, receipt@),
            Ask::JobResult(id, receipt) => AskView::JobResult(id@, receipt@),
            Ask::Acknowledge(id, receipt) => AskView::Acknowledge(id@, receipt@),
            Ask::Status => AskView::Status,
            Ask::Balance => AskView::Balance,
            Ask::Rest => AskView::Rest,
        }
    }
}

/// What the engine answered.
#[derive(Debug)]
pub enum Answer {
    /// The value that a call gave, or the words of its error.
    Value(Result<Json, String>),
    /// The balance and the unlocked balance, where the engine gave them.
    Balance(Option<String>, Option<String>),
    /// That the question has arrived.
    Noted,
}

/// What an `Answer` says.
pub enum AnswerView {
    Value(Result<JsonView, Seq<char>>),
    Balance(Seq<char>, Seq<char>),
    Noted,
}

impl View for Answer {
    type V = AnswerView;

    open spec fn view(&self) -> AnswerView {
        match self {
            Answer::Value(r) => AnswerView::Value(outcome_view(*r)),
            Answer::Balance(balance, unlocked) => AnswerView::Balance(
                balance_or_zero(*balance),
                balance_or_zero(*unlocked),
            ),
            Answer::Noted => AnswerView::Noted,
        }
    }
}

// ---------------------------------------------------------------------------------------------
// The turn
// ---------------------------------------------------------------------------------------------

/// Where a turn stands.
#[derive(Debug)]
enum Stage {
    /// The next job is polled.
    Poll,
    /// The next job is done, and its result is fetched.
    Collect,
    /// The next job has ended with this outcome, and its end is acknowledged.
    Acknowledge(Result<Json, String>),
    /// All jobs were polled; the status is asked for.
    Status,
    /// A wallet is open; the balance is asked for.
    Balance,
    Over,
}

/// Where a turn stands.
pub enum StageView {
    Poll,
    Collect,
    Acknowledge(Result<JsonView, Seq<char>>),
    Status,
    Balance,
    Over,
}

impl View for Stage {
    type V = StageView;

    closed spec fn view(&self) -> StageView {
        match self {
            Stage::Poll => StageView::Poll,
            Stage::Collect => StageView::Collect,
            Stage::Acknowledge(outcome) => StageView::Acknowledge(outcome_view(*outcome)),
            Stage::Status => StageView::Status,
            Stage::Balance => StageView::Balance,
            Stage::Over => StageView::Over,
        }
    }
}

/// One turn of the reactor.
#[derive(Debug)]
pub struct Turn {
    polls: Vec<(String, (String, String))>,
    at: usize,
    slow: bool,
    stage: Stage,
}

/// What a `Turn` has yet to do: the jobs that were not settled, each by its id and the engine's
/// ticket, and where it stands.
#[verifier::ext_equal]
pub struct TurnView {
    pub polls: Seq<(Seq<char>, (Seq<char>, Seq<char>))>,
    pub slow: bool,
    pub stage: StageView,
}

impl View for Turn {
    type V = TurnView;

    closed spec fn view(&self) -> TurnView {
        TurnView {
            polls: polls_of(self.polls@).skip(self.at as int),
            slow: self.slow,
            stage: self.stage@,
        }
    }
}

impl TurnView {
    /// A turn before the next of these jobs; without any, before the status, or over.
    pub open spec fn facing(polls: Seq<(Seq<char>, (Seq<char>, Seq<char>))>, slow: bool) -> TurnView {
        TurnView {
            polls,
            slow,
            stage: if polls.len() > 0 {
                StageView::Poll
            } else if slow {
                StageView::Status
            } else {
                StageView::Over
            },
        }
    }

    /// The turn stands at a job only while there is one.
    pub open spec fn wf(self) -> bool {
        self.stage is Poll || self.stage is Collect || self.stage is Acknowledge
            ==> self.polls.len() > 0
    }

    /// The turn at another stage.
    pub open spec fn at(self, stage: StageView) -> TurnView {
        TurnView { stage, ..self }
    }

    /// The turn after its next job was settled.
    pub open spec fn settled(self) -> TurnView {
        TurnView::facing(self.polls.drop_first(), self.slow)
    }

    /// What the engine is to be asked.
    pub open spec fn ask(self) -> AskView {
        let (id, receipt) = self.polls[0].1;
        match self.stage {
            StageView::Poll => AskView::JobStatus(id, receipt),
            StageView::Collect => AskView::JobResult(id, receipt),
            StageView::Acknowledge(_) => AskView::Acknowledge(id, receipt),
            StageView::Status => AskView::Status,
            StageView::Balance => AskView::Balance,
            StageView::Over => AskView::Rest,
        }
    }

    /// `answer` answers what the engine was asked.
    pub open spec fn awaits(self, answer: AnswerView) -> bool {
        match self.ask() {
            AskView::JobStatus(_, _) => answer is Value,
            AskView::JobResult(_, _) => answer is Value,
            AskView::Acknowledge(_, _) => true,
            AskView::Status => answer is Value,
            AskView::Balance => answer is Balance,
            AskView::Rest => false,
        }
    }

    /// The turn after the answer.
    pub open spec fn answered(self, answer: AnswerView) -> TurnView {
        match self.stage {
            StageView::Poll => match step_of(polled(answer->Value_0)) {
                JobStepView::Collect => self.at(StageView::Collect),
                JobStepView::Fail(words) => self.at(StageView::Acknowledge(Err(words))),
                JobStepView::Note(_) => self.settled(),
                JobStepView::Wait => self.settled(),
            },
            StageView::Collect => self.at(StageView::Acknowledge(engine_outcome(answer->Value_0))),
            StageView::Acknowledge(_) => self.settled(),
            StageView::Status => match answer->Value_0 {
                Ok(status) => if wants_balance(status) {
                    self.at(StageView::Balance)
                } else {
                    self.at(StageView::Over)
                },
                Err(_) => self.at(StageView::Over),
            },
            StageView::Balance => self.at(StageView::Over),
            StageView::Over => self,
        }
    }

    /// Previews expire with the last answer of a slow turn.
    pub open spec fn expires(self, answer: AnswerView) -> bool {
        (self.stage is Status || self.stage is Balance) && self.answered(answer).stage is Over
    }

    /// How many answers the turn takes at most.
    pub open spec fn left(self) -> nat {
        let after_jobs: nat = if self.slow {
            2
        } else {
            0
        };
        match self.stage {
            StageView::Poll => 3 * self.polls.len() + after_jobs,
            StageView::Collect => (3 * self.polls.len() - 1 + after_jobs) as nat,
            StageView::Acknowledge(_) => (3 * self.polls.len() - 2 + after_jobs) as nat,
            StageView::Status => 2,
            StageView::Balance => 1,
            StageView::Over => 0,
        }
    }
}

/// The status of a job, which is null where the engine gave none.
pub open spec fn polled(r: Result<JsonView, Seq<char>>) -> JsonView {
    match r {
        Ok(status) => status,
        Err(_) => JsonView::Null,
    }
}

impl BackendView {
    /// The state after what the answer itself says was taken in.
    pub open spec fn taking(self, turn: TurnView, answer: AnswerView, now: u128) -> BackendView {
        let id = turn.polls[0].0;
        match turn.stage {
            StageView::Poll => match step_of(polled(answer->Value_0)) {
                JobStepView::Note(state) => self.noted(id, state),
                _ => self,
            },
            StageView::Acknowledge(outcome) => self.finished(id, outcome, now),
            StageView::Status => match answer->Value_0 {
                Ok(status) => self.seeing(status),
                Err(_) => self,
            },
            StageView::Balance => BackendView {
                last_balance: (answer->Balance_0, answer->Balance_1),
                ..self
            },
            _ => self,
        }
    }

    /// The state after the answer.
    pub open spec fn turned(self, turn: TurnView, answer: AnswerView, now: u128) -> BackendView {
        let taken = self.taking(turn, answer, now);
        if turn.expires(answer) {
            BackendView { sends: after_expiry(taken.sends, now), ..taken }
        } else {
            taken
        }
    }

    /// What the surfaces are told of the answer itself.
    pub open spec fn answer_events(self, turn: TurnView, answer: AnswerView, now: u128) -> Seq<EventView> {
        match turn.stage {
            StageView::Acknowledge(outcome) => self.finish_events(turn.polls[0].0, outcome, now),
            StageView::Status => match answer->Value_0 {
                Ok(status) => self.status_events(status),
                Err(_) => Seq::empty(),
            },
            StageView::Balance => {
                let seen = (answer->Balance_0, answer->Balance_1);
                if self.last_balance == seen {
                    Seq::empty()
                } else {
                    seq![EventView::BalanceChanged(text_of_json(balance_json(seen.0, seen.1)))]
                }
            },
            _ => Seq::empty(),
        }
    }

    /// What the surfaces are told of previews that expire, listed in `order`.
    pub open spec fn expiry_events(self, order: Seq<Seq<char>>, now: u128) -> Seq<EventView> {
        request_ids(
            order.filter(|id: Seq<char>| self.sends[id].stale(now)),
            self.sends,
        ).map_values(|id: Seq<char>| EventView::SendStatusChanged(id, "failed"@))
    }

    /// All that the surfaces are told of the answer, in order. `order` lists the sends.
    pub open spec fn turn_events(
        self,
        turn: TurnView,
        order: Seq<Seq<char>>,
        answer: AnswerView,
        now: u128,
    ) -> Seq<EventView> {
        let said = self.answer_events(turn, answer, now);
        if turn.expires(answer) {
            said + self.expiry_events(order, now)
        } else {
            said
        }
    }

    /// The registry is to be stored after the answer.
    pub open spec fn turn_stores(self, turn: TurnView) -> bool {
        match turn.stage {
            StageView::Acknowledge(outcome) => self.finish_stores(turn.polls[0].0, outcome),
            _ => false,
        }
    }
}

/// What is to be done after an answer.
pub struct Turned {
    /// The registry is to be stored.
    pub store_registry: bool,
    /// What the surfaces are to be told, in order.
    pub events: Vec<Event>,
}

impl Turn {
    /// A turn that is about to begin: the jobs that are not done are polled, in order.
    pub fn begin(backend: &Backend, slow: bool) -> (r: Turn)
        requires
            backend.wf(),
        ensures
            r.wf(),
            r@.wf(),
            r@ == TurnView::facing(backend.polls(), slow),
    {
        let polls = backend.pending_jobs();
        let stage = if polls.len() > 0 {
            Stage::Poll
        } else if slow {
            Stage::Status
        } else {
            Stage::Over
        };
        assert(polls_of(polls@).skip(0) =~= polls_of(polls@));
        Turn { polls, at: 0, slow, stage }
    }

    /// The turn stands at a job only while there is one.
    pub closed spec fn wf(&self) -> bool {
        self.at <= self.polls@.len() && self@.wf()
    }

    /// What the engine is to be asked.
    pub fn ask(&self) -> (r: Ask)
        requires
            self.wf(),
        ensures
            r@ == self@.ask(),
    {
        match &self.stage {
            Stage::Poll => {
                let core = &self.polls[self.at].1;
                Ask::JobStatus(core.0.clone(), core.1.clone())
            },
            Stage::Collect => {
                let core = &self.polls[self.at].1;
                Ask::JobResult(core.0.clone(), core.1.clone())
            },
            Stage::Acknowledge(_) => {
                let core = &self.polls[self.at].1;
                Ask::Acknowledge(core.0.clone(), core.1.clone())
            },
            Stage::Status => Ask::Status,
            Stage::Balance => Ask::Balance,
            Stage::Over => Ask::Rest,
        }
    }

    /// Goes on to the next job, or to what follows the jobs.
    fn settle(&mut self)
        requires
            old(self).wf(),
            old(self)@.polls.len() > 0,
        ensures
            final(self).wf(),
            final(self)@ == old(self)@.settled(),
    {
        let ghost before = self@;
        let ghost all = polls_of(self.polls@);
        assert(all.skip(self.at as int).drop_first() =~= all.skip(self.at + 1));
        let count: usize = self.polls.len();
        self.at = self.at + 1;
        self.stage = if self.at < count {
            Stage::Poll
        } else if self.slow {
            Stage::Status
        } else {
            Stage::Over
        };
        assert(self@.polls =~= before.polls.drop_first());
    }

    /// Takes the answer to what the engine was asked, and acts on it. `now` is the time.
    pub fn step(&mut self, backend: &mut Backend, answer: Answer, now: u128) -> (r: Turned)
        requires
            old(self).wf(),
            old(self)@.awaits(answer@),
            old(backend).wf(),
        ensures
            final(self).wf(),
            final(self)@.wf(),
            final(self)@ == old(self)@.answered(answer@),
            final(backend).wf(),
            final(backend)@ == old(backend)@.turned(old(self)@, answer@, now),
            told(r.events@) == old(backend)@.turn_events(
                old(self)@,
                old(backend).sends.order(),
                answer@,
                now,
            ),
            r.store_registry == old(backend)@.turn_stores(old(self)@),
    {
        let ghost turn = self@;
        let ghost before = backend@;
        let ghost order = backend.sends.order();
        let mut events: Vec<Event> = Vec::new();
        assert(told(events@) =~= Seq::<EventView>::empty());
        let mut stage = Stage::Over;
        std::mem::swap(&mut stage, &mut self.stage);
        match (stage, answer) {
            (Stage::Poll, Answer::Value(r)) => {
                let status = match r {
                    Ok(status) => status,
                    Err(_) => Json::Null,
                };
                match job_step(&status) {
                    JobStep::Collect => {
                        self.stage = Stage::Collect;
                    },
                    JobStep::Fail(words) => {
                        self.stage = Stage::Acknowledge(Err(words));
                    },
                    JobStep::Note(state) => {
                        backend.note_job_state(self.polls[self.at].0.as_str(), state);
                        self.settle();
                    },
                    JobStep::Wait => {
                        self.settle();
                    },
                }
                Turned { store_registry: false, events }
            },
            (Stage::Collect, Answer::Value(r)) => {
                self.stage = Stage::Acknowledge(engine_result(r));
                Turned { store_registry: false, events }
            },
            (Stage::Acknowledge(outcome), _) => {
                let done = backend.finish_job(self.polls[self.at].0.as_str(), outcome, now);
                self.settle();
                Turned { store_registry: done.store_registry, events: done.events }
            },
            (Stage::Status, Answer::Value(Ok(status))) => {
                let seen = backend.see_status(&status);
                if seen.ask_balance {
                    self.stage = Stage::Balance;
                    return Turned { store_registry: false, events: seen.events };
                }
                events = seen.events;
                let ghost said = told(events@);
                proof {
                    one_list(order, backend.sends.order(), before.sends);
                }
                let mut expired = backend.expire_sends(now);
                let ghost gone = told(expired@);
                events.append(&mut expired);
                assert(told(events@) =~= said + gone);
                assert(gone =~= before.expiry_events(order, now));
                Turned { store_registry: false, events }
            },
            (Stage::Balance, Answer::Balance(balance, unlocked)) => {
                match backend.see_balance(balance, unlocked) {
                    Some(event) => {
                        events.push(event);
                    },
                    None => {},
                }
                let ghost said = told(events@);
                assert(said =~= before.answer_events(turn, answer@, now));
                proof {
                    one_list(order, backend.sends.order(), before.sends);
                }
                let mut expired = backend.expire_sends(now);
                let ghost gone = told(expired@);
                events.append(&mut expired);
                assert(told(events@) =~= said + gone);
                assert(gone =~= before.expiry_events(order, now));
                Turned { store_registry: false, events }
            },
            (Stage::Status, _) => {
                let expired = backend.expire_sends(now);
                assert(told(expired@) =~= told(events@) + before.expiry_events(order, now));
                Turned { store_registry: false, events: expired }
            },
            _ => Turned { store_registry: false, events },
        }
    }
}

/// Law: questions and answers say what they are.
pub proof fn what_questions_and_answers_say(
    a: String,
    b: String,
    value: Json,
    balance: Option<String>,
    unlocked: Option<String>,
)
    ensures
        Ask::JobStatus(a, b)@ == AskView::JobStatus(a@, b@),
        Ask::JobResult(a, b)@ == AskView::JobResult(a@, b@),
        Ask::Acknowledge(a, b)@ == AskView::Acknowledge(a@, b@),
        Ask::Status@ is Status,
        Ask::Balance@ is Balance,
        Ask::Rest@ is Rest,
        Answer::Value(Ok::<Json, String>(value))@ == AnswerView::Value(
            Ok::<JsonView, Seq<char>>(value@),
        ),
        Answer::Value(Err::<Json, String>(a))@ == AnswerView::Value(Err::<JsonView, Seq<char>>(a@)),
        Answer::Balance(balance, unlocked)@ == AnswerView::Balance(
            if balance is Some {
                balance->0@
            } else {
                "0"@
            },
            if unlocked is Some {
                unlocked->0@
            } else {
                "0"@
            },
        ),
{
}

} // verus!
