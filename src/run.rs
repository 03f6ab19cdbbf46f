//! The fan-out/join orchestrator, as a state machine. The driver reads the
//! candidate paths in file order and hands each line in; every line becomes
//! one probe unit to spawn. Each unit reports its result once, in any order;
//! the run is finished when the input is closed and every unit has reported.
use vstd::prelude::*;
use crate::probe::{target_url, url_of, Outcome, ProbeResult};
use crate::report::{emission, emission_of, error_stream, exists_stream, Emission, Stream};

verus! {

/// The model of a run.
pub ghost struct RunState {
    pub base_url: Seq<char>,
    /// The URL of each spawned unit, in the order the lines were read.
    pub urls: Seq<Seq<char>>,
    /// Whether each unit has reported its result.
    pub done: Seq<bool>,
    /// Whether the whole input has been read.
    pub closed: bool,
    /// The outcomes, in the order they were reported.
    pub completed: Seq<Outcome>,
}

/// The number of units that have not reported yet.
pub open spec fn count_pending(done: Seq<bool>) -> nat
    decreases done.len(),
{
    if done.len() == 0 {
        0
    } else {
        count_pending(done.drop_last()) + if done.last() { 0nat } else { 1nat }
    }
}

impl RunState {
    /// The run before any line has been read.
    pub open spec fn start(base_url: Seq<char>) -> RunState {
        RunState { base_url, urls: seq![], done: seq![], closed: false, completed: seq![] }
    }

    /// One more line read: one more unit, not yet done.
    pub open spec fn after_line(self, line: Seq<char>) -> RunState {
        RunState {
            urls: self.urls.push(url_of(self.base_url, line)),
            done: self.done.push(false),
            ..self
        }
    }

    /// The input is exhausted.
    pub open spec fn after_close(self) -> RunState {
        RunState { closed: true, ..self }
    }

    /// Unit `i` reported outcome `o`.
    pub open spec fn after_result(self, i: int, o: Outcome) -> RunState {
        RunState { done: self.done.update(i, true), completed: self.completed.push(o), ..self }
    }

    /// The run after these lines have been read, one by one.
    pub open spec fn after_lines(self, lines: Seq<Seq<char>>) -> RunState
        decreases lines.len(),
    {
        if lines.len() == 0 {
            self
        } else {
            self.after_lines(lines.drop_last()).after_line(lines.last())
        }
    }

    /// Unit `i` exists and has not reported yet.
    pub open spec fn is_pending(self, i: int) -> bool {
        0 <= i < self.done.len() && !self.done[i]
    }

    /// The input is closed and no unit is still running.
    pub open spec fn finished(self) -> bool {
        self.closed && forall|i: int| 0 <= i < self.done.len() ==> self.done[i]
    }

    /// Every unit has a URL and a flag, and each report settled one unit.
    pub open spec fn wf(self) -> bool {
        &&& self.done.len() == self.urls.len()
        &&& self.completed.len() + count_pending(self.done) == self.urls.len()
    }
}

proof fn lemma_pending_push(done: Seq<bool>, b: bool)
    ensures
        count_pending(done.push(b)) == count_pending(done) + if b { 0nat } else { 1nat },
{
    assert(done.push(b).drop_last() =~= done);
}

proof fn lemma_pending_settle(done: Seq<bool>, i: int)
    requires
        0 <= i < done.len(),
        !done[i],
    ensures
        count_pending(done.update(i, true)) + 1 == count_pending(done),
    decreases done.len(),
{
    let d2 = done.update(i, true);
    if i == done.len() - 1 {
        assert(d2.drop_last() =~= done.drop_last());
    } else {
        lemma_pending_settle(done.drop_last(), i);
        assert(d2.drop_last() =~= done.drop_last().update(i, true));
    }
}

pub(crate) proof fn lemma_pending_zero(done: Seq<bool>)
    ensures
        count_pending(done) == 0 <==> forall|i: int| 0 <= i < done.len() ==> done[i],
    decreases done.len(),
{
    if done.len() > 0 {
        lemma_pending_zero(done.drop_last());
        if count_pending(done) == 0 {
            assert forall|i: int| 0 <= i < done.len() implies done[i] by {
                if i < done.len() - 1 {
                    assert(done.drop_last()[i] == done[i]);
                }
            }
        }
        if forall|i: int| 0 <= i < done.len() ==> done[i] {
            assert forall|i: int| 0 <= i < done.drop_last().len() implies done.drop_last()[i] by {
                assert(done[i]);
            }
        }
    }
}

/// What a driver must spawn for one line: the unit's index and its URL.
pub struct ProbeUnit {
    pub index: usize,
    pub url: String,
}

/// Why a step was refused.
#[derive(Clone, Copy, Debug, PartialEq, Eq, Structural)]
pub enum RunError {
    /// A line came in after the input was closed.
    InputClosed,
    /// A result came for a unit that does not exist or has already reported.
    NotPending,
}

/// The state of one fan-out/join run.
pub struct Orchestrator {
    base_url: String,
    urls: Vec<String>,
    done: Vec<bool>,
    closed: bool,
    pending: usize,
    exists: Vec<String>,
    errors: Vec<String>,
    completed: Ghost<Seq<Outcome>>,
}

impl View for Orchestrator {
    type V = RunState;

    closed spec fn view(&self) -> RunState {
        RunState {
            base_url: self.base_url@,
            urls: self.urls.deep_view(),
            done: self.done@,
            closed: self.closed,
            completed: self.completed@,
        }
    }
}

impl Orchestrator {
    /// The fields agree with the model.
    pub closed spec fn inv(&self) -> bool {
        &&& self@.wf()
        &&& self.pending as nat == count_pending(self.done@)
        &&& self.exists.deep_view() == exists_stream(self.completed@)
        &&& self.errors.deep_view() == error_stream(self.completed@)
    }

    /// The "exists" stream so far.
    pub closed spec fn exists_spec(&self) -> Seq<Seq<char>> {
        self.exists.deep_view()
    }

    /// The "error" stream so far.
    pub closed spec fn errors_spec(&self) -> Seq<Seq<char>> {
        self.errors.deep_view()
    }

    /// Starts a run that probes paths below `base_url`.
    pub fn new(base_url: String) -> (r: Orchestrator)
        ensures
            r.inv(),
            r@ == RunState::start(base_url@),
            r.exists_spec() == exists_stream(r@.completed),
            r.errors_spec() == error_stream(r@.completed),
    {
        let r = Orchestrator {
            base_url,
            urls: Vec::new(),
            done: Vec::new(),
            closed: false,
            pending: 0,
            exists: Vec::new(),
            errors: Vec::new(),
            completed: Ghost(Seq::empty()),
        };
        assert(r.urls.deep_view() =~= seq![]);
        assert(r.exists.deep_view() =~= seq![]);
        assert(r.errors.deep_view() =~= seq![]);
        r
    }

    /// Takes the next line of input and returns the unit to spawn for it.
    pub fn on_line(&mut self, line: &str) -> (r: Result<ProbeUnit, RunError>)
        requires
            old(self).inv(),
            old(self)@.urls.len() < usize::MAX,
        ensures
            final(self).inv(),
            final(self).exists_spec() == exists_stream(final(self)@.completed),
            final(self).errors_spec() == error_stream(final(self)@.completed),
            old(self)@.closed ==> r == Err::<ProbeUnit, RunError>(RunError::InputClosed)
                && final(self)@ == old(self)@,
            !old(self)@.closed ==> r is Ok && final(self)@ == old(self)@.after_line(line@)
                && r->Ok_0.index == old(self)@.urls.len()
                && r->Ok_0.url@ == url_of(old(self)@.base_url, line@),
    {
        if self.closed {
            return Err(RunError::InputClosed);
        }
        let url = target_url(self.base_url.as_str(), line);
        let index = self.urls.len();
        let ghost old_done = self.done@;
        self.urls.push(url.clone());
        self.done.push(false);
        proof {
            lemma_pending_push(old_done, false);
            assert(self.done@ =~= old_done.push(false));
        }
        self.pending = self.pending + 1;
        assert(self.urls.deep_view() =~= old(self).urls.deep_view().push(url@));
        Ok(ProbeUnit { index, url })
    }

    /// Records that the input is exhausted: no more units will be spawned.
    pub fn close_input(&mut self)
        requires
            old(self).inv(),
        ensures
            final(self).inv(),
            final(self)@ == old(self)@.after_close(),
            final(self).exists_spec() == exists_stream(final(self)@.completed),
            final(self).errors_spec() == error_stream(final(self)@.completed),
    {
        self.closed = true;
    }

    /// Whether unit `index` has been spawned and has not reported yet.
    pub fn is_pending(&self, index: usize) -> (r: bool)
        requires
            self.inv(),
        ensures
            r == self@.is_pending(index as int),
    {
        index < self.done.len() && !self.done[index]
    }

    /// Takes the result of unit `index`; returns the entry to write, if any.
    pub fn on_result(&mut self, index: usize, result: ProbeResult) -> (r: Result<Option<Emission>, RunError>)
        requires
            old(self).inv(),
        ensures
            final(self).inv(),
            final(self).exists_spec() == exists_stream(final(self)@.completed),
            final(self).errors_spec() == error_stream(final(self)@.completed),
            !old(self)@.is_pending(index as int) ==> r == Err::<Option<Emission>, RunError>(
                RunError::NotPending,
            ) && final(self)@ == old(self)@,
            old(self)@.is_pending(index as int) ==> r is Ok && final(self)@ == old(self)@.after_result(
                index as int,
                result@,
            ) && match emission_of(result@) {
                Some((stream, text)) => r->Ok_0 is Some && r->Ok_0->0.stream == stream && r->Ok_0->0.text@
                    == text,
                None => r->Ok_0 is None,
            },
    {
        if !self.is_pending(index) {
            return Err(RunError::NotPending);
        }
        let ghost old_done = self.done@;
        let ghost old_completed = self.completed@;
        let ghost o = result@;
        self.done.set(index, true);
        proof {
            lemma_pending_settle(old_done, index as int);
            lemma_pending_zero(old_done);
        }
        self.pending = self.pending - 1;
        self.completed = Ghost(old_completed.push(o));
        assert(self.completed@.drop_last() =~= old_completed);
        let e = emission(&result);
        match &e {
            Some(em) => match em.stream {
                Stream::Exists => {
                    self.exists.push(em.text.clone());
                    assert(self.exists.deep_view() =~= old(self).exists.deep_view().push(em.text@));
                },
                Stream::Error => {
                    self.errors.push(em.text.clone());
                    assert(self.errors.deep_view() =~= old(self).errors.deep_view().push(em.text@));
                },
            },
            None => {},
        }
        Ok(e)
    }

    /// Whether the input is closed and every spawned unit has reported.
    pub fn is_finished(&self) -> (r: bool)
        requires
            self.inv(),
        ensures
            r == self@.finished(),
    {
        proof {
            lemma_pending_zero(self.done@);
        }
        self.closed && self.pending == 0
    }

    /// The number of units spawned so far.
    pub fn unit_count(&self) -> (r: usize)
        requires
            self.inv(),
        ensures
            r == self@.urls.len(),
    {
        self.urls.len()
    }

    /// The "exists" stream so far, in the order the results came in.
    pub fn exists_entries(&self) -> (r: &Vec<String>)
        ensures
            r.deep_view() == self.exists_spec(),
    {
        &self.exists
    }

    /// The "error" stream so far, in the order the results came in.
    pub fn error_entries(&self) -> (r: &Vec<String>)
        ensures
            r.deep_view() == self.errors_spec(),
    {
        &self.errors
    }
}

} // verus!
