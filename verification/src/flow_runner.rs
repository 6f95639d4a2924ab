//! The decisions of a flow run: which brick runs next, what a brick's
//! result asks of the run, what usage it reports, and the record of a run.
//! The caller performs each step (checking quotas, running the brick,
//! storing data) and hands the outcome back.
use vstd::prelude::*;
use crate::json::{Json, JsonV, jget, ju64, obj_remove};
use crate::text::{decimal, usize_text, concat};
use crate::types::{BrickType, ExecutionStatus, FlowExecution};
use crate::brick_traits::{BrickError, BrickErr, brick_err_text};
use crate::quota::{QuotaError, QuotaErr, quota_err_text};

verus! {

/// Why a flow run failed.
#[derive(Debug)]
pub enum FlowError {
    BrickError(BrickError),
    QuotaError(QuotaError),
    FlowNotFound(String),
    InvalidFlow(String),
}

/// The mathematical value of a flow error.
pub enum FlowErr {
    BrickError(BrickErr),
    QuotaError(QuotaErr),
    FlowNotFound(Seq<char>),
    InvalidFlow(Seq<char>),
}

impl View for FlowError {
    type V = FlowErr;

    open spec fn view(&self) -> FlowErr {
        match self {
            FlowError::BrickError(e) => FlowErr::BrickError(e@),
            FlowError::QuotaError(e) => FlowErr::QuotaError(e@),
            FlowError::FlowNotFound(s) => FlowErr::FlowNotFound(s@),
            FlowError::InvalidFlow(s) => FlowErr::InvalidFlow(s@),
        }
    }
}

/// The text of a flow error.
pub open spec fn flow_err_text(e: FlowErr) -> Seq<char> {
    match e {
        FlowErr::BrickError(b) => "Brick execution error: "@ + brick_err_text(b),
        FlowErr::QuotaError(q) => "Quota error: "@ + quota_err_text(q),
        FlowErr::FlowNotFound(s) => "Flow not found: "@ + s,
        FlowErr::InvalidFlow(s) => "Invalid flow configuration: "@ + s,
    }
}

impl FlowError {
    /// The text of the error.
    pub fn message(&self) -> (s: String)
        ensures
            s@ == flow_err_text(self@),
    {
        match self {
            FlowError::BrickError(e) => {
                let m = e.message();
                concat("Brick execution error: ", m.as_str())
            },
            FlowError::QuotaError(e) => {
                let m = e.message();
                concat("Quota error: ", m.as_str())
            },
            FlowError::FlowNotFound(s) => concat("Flow not found: ", s.as_str()),
            FlowError::InvalidFlow(s) => concat("Invalid flow configuration: ", s.as_str()),
        }
    }
}

/// Where a run stands: the next brick to consider, how many bricks are
/// still to be skipped, and how many bricks the flow has.
#[derive(Debug, Clone, Copy)]
pub struct FlowCursor {
    pub next_index: usize,
    pub skip_count: usize,
    pub brick_count: usize,
}

/// What the run does next.
#[derive(Debug, Clone, Copy, PartialEq, Eq, Structural)]
pub enum FlowStep {
    Run(usize),
    Finished,
}

/// The next step, and where the run stands after taking it: bricks still
/// to be skipped are passed over, then the next brick runs; the run
/// finishes when no brick is left.
pub open spec fn advance_spec(c: FlowCursor) -> (FlowCursor, FlowStep) {
    if c.next_index >= c.brick_count {
        (c, FlowStep::Finished)
    } else if c.next_index + c.skip_count < c.brick_count {
        (
            FlowCursor {
                next_index: (c.next_index + c.skip_count + 1) as usize,
                skip_count: 0,
                brick_count: c.brick_count,
            },
            FlowStep::Run((c.next_index + c.skip_count) as usize),
        )
    } else {
        (
            FlowCursor {
                next_index: c.brick_count,
                skip_count: (c.skip_count - (c.brick_count - c.next_index)) as usize,
                brick_count: c.brick_count,
            },
            FlowStep::Finished,
        )
    }
}

/// The skip count that a brick's result asks for: `_skip_bricks` when it
/// is a non-negative integer that fits in 64 bits, else the count as it was.
pub open spec fn requested_skip(result: JsonV, current: usize) -> usize {
    match jget(result, "_skip_bricks"@) {
        Some(v) => match ju64(v) {
            Some(n) => n as usize,
            None => current,
        },
        None => current,
    }
}

/// A brick's result without its `_skip_bricks` entry.
pub open spec fn without_skip(result: JsonV) -> JsonV {
    match result {
        JsonV::Obj(s) => JsonV::Obj(obj_remove(s, "_skip_bricks"@)),
        other => other,
    }
}

impl FlowCursor {
    /// The start of a run over `brick_count` bricks.
    pub fn new(brick_count: usize) -> (c: FlowCursor)
        ensures
            c == (FlowCursor { next_index: 0, skip_count: 0, brick_count }),
    {
        FlowCursor { next_index: 0, skip_count: 0, brick_count }
    }

    /// Passes over the bricks to skip and gives the next brick to run, or
    /// says that the run is over.
    pub fn advance(&mut self) -> (step: FlowStep)
        requires
            old(self).next_index <= old(self).brick_count,
        ensures
            (*final(self), step) == advance_spec(*old(self)),
    {
        while self.next_index < self.brick_count
            invariant
                self.next_index <= self.brick_count,
                self.brick_count == old(self).brick_count,
                old(self).next_index <= self.next_index,
                self.next_index + self.skip_count == old(self).next_index + old(self).skip_count,
            decreases self.brick_count - self.next_index,
        {
            if self.skip_count > 0 {
                self.skip_count = self.skip_count - 1;
                self.next_index = self.next_index + 1;
            } else {
                let i = self.next_index;
                self.next_index = self.next_index + 1;
                return FlowStep::Run(i);
            }
        }
        FlowStep::Finished
    }

    /// Takes in a brick's result: its `_skip_bricks` entry, if any, is
    /// removed, and sets how many of the following bricks are skipped.
    pub fn absorb_result(&mut self, result: &mut Json)
        ensures
            final(result)@ == without_skip(old(result)@),
            final(self).skip_count == requested_skip(old(result)@, old(self).skip_count),
            final(self).next_index == old(self).next_index,
            final(self).brick_count == old(self).brick_count,
    {
        match result.remove_key("_skip_bricks") {
            Some(skip_value) => match skip_value.as_u64() {
                Some(n) => {
                    self.skip_count = n as usize;
                },
                None => {},
            },
            None => {},
        }
    }
}

// ---------------------------------------------------------------------------
// The steps of a run.

/// What a run is waiting for.
#[derive(Debug, Clone, Copy, PartialEq, Eq, Structural)]
pub enum FlowPhase {
    /// Not started.
    Starting,
    /// The configuration of brick `i` is being checked.
    Validating(usize),
    /// The quota of brick `i` is being checked.
    CheckingQuota(usize),
    /// Brick `i` is running.
    Running(usize),
    /// The use of brick `i` is being recorded.
    Recording(usize),
    /// The run is over.
    Finished,
}

/// What the caller reports after performing an action.
pub enum FlowEvent {
    /// Start the run.
    Begin,
    /// The outcome of checking the brick's configuration.
    Validated(Result<(), BrickError>),
    /// The outcome of checking the brick's quota.
    QuotaChecked(Result<(), QuotaError>),
    /// The brick's output, or its failure.
    Executed(Result<Json, BrickError>),
    /// The brick's use has been recorded (whatever became of recording).
    Recorded,
}

/// The mathematical value of an event.
pub enum FlowEventV {
    Begin,
    Validated(Result<(), BrickErr>),
    QuotaChecked(Result<(), QuotaErr>),
    Executed(Result<JsonV, BrickErr>),
    Recorded,
}

impl View for FlowEvent {
    type V = FlowEventV;

    open spec fn view(&self) -> FlowEventV {
        match self {
            FlowEvent::Begin => FlowEventV::Begin,
            FlowEvent::Validated(r) => FlowEventV::Validated(
                match r {
                    Ok(_) => Ok(()),
                    Err(e) => Err(e@),
                },
            ),
            FlowEvent::QuotaChecked(r) => FlowEventV::QuotaChecked(
                match r {
                    Ok(_) => Ok(()),
                    Err(e) => Err(e@),
                },
            ),
            FlowEvent::Executed(r) => FlowEventV::Executed(
                match r {
                    Ok(v) => Ok(v@),
                    Err(e) => Err(e@),
                },
            ),
            FlowEvent::Recorded => FlowEventV::Recorded,
        }
    }
}

/// What the caller does next.
pub enum FlowAction {
    /// Check the configuration of brick `i`.
    Validate(usize),
    /// Check the quota of brick `i`.
    CheckQuota(usize),
    /// Run brick `i` on the payload.
    Execute(usize, Json),
    /// Record the use of brick `i`, whose output (without its skip request)
    /// is given.
    Record(usize, Json),
    /// The run succeeded with this output.
    Finish(Json),
    /// The run failed.
    Fail(FlowError),
}

/// The mathematical value of an action.
pub enum FlowActionV {
    Validate(usize),
    CheckQuota(usize),
    Execute(usize, JsonV),
    Record(usize, JsonV),
    Finish(JsonV),
    Fail(FlowErr),
}

impl View for FlowAction {
    type V = FlowActionV;

    open spec fn view(&self) -> FlowActionV {
        match self {
            FlowAction::Validate(i) => FlowActionV::Validate(*i),
            FlowAction::CheckQuota(i) => FlowActionV::CheckQuota(*i),
            FlowAction::Execute(i, p) => FlowActionV::Execute(*i, p@),
            FlowAction::Record(i, p) => FlowActionV::Record(*i, p@),
            FlowAction::Finish(p) => FlowActionV::Finish(p@),
            FlowAction::Fail(e) => FlowActionV::Fail(e@),
        }
    }
}

/// A run of a flow: where it stands, what it waits for, whether quotas are
/// checked, and the payload handed from brick to brick.
pub struct FlowRun {
    pub cursor: FlowCursor,
    pub phase: FlowPhase,
    pub checks_quota: bool,
    pub payload: Json,
}

/// The mathematical value of a run.
pub struct FlowRunV {
    pub cursor: FlowCursor,
    pub phase: FlowPhase,
    pub checks_quota: bool,
    pub payload: JsonV,
}

impl View for FlowRun {
    type V = FlowRunV;

    open spec fn view(&self) -> FlowRunV {
        FlowRunV {
            cursor: self.cursor,
            phase: self.phase,
            checks_quota: self.checks_quota,
            payload: self.payload@,
        }
    }
}

/// Does the event answer what the run waits for?
pub open spec fn event_fits(phase: FlowPhase, e: FlowEventV) -> bool {
    match (phase, e) {
        (FlowPhase::Starting, FlowEventV::Begin) => true,
        (FlowPhase::Validating(_), FlowEventV::Validated(_)) => true,
        (FlowPhase::CheckingQuota(_), FlowEventV::QuotaChecked(_)) => true,
        (FlowPhase::Running(_), FlowEventV::Executed(_)) => true,
        (FlowPhase::Recording(_), FlowEventV::Recorded) => true,
        _ => false,
    }
}

/// Moving on to the next brick: its configuration is checked first; with
/// no brick left the run finishes with the payload.
pub open spec fn next_brick(r: FlowRunV) -> (FlowRunV, FlowActionV) {
    let (c, step) = advance_spec(r.cursor);
    match step {
        FlowStep::Run(i) => (
            FlowRunV { cursor: c, phase: FlowPhase::Validating(i), ..r },
            FlowActionV::Validate(i),
        ),
        FlowStep::Finished => (
            FlowRunV { cursor: c, phase: FlowPhase::Finished, ..r },
            FlowActionV::Finish(r.payload),
        ),
    }
}

/// The step of a run on an event. Each brick's configuration is checked,
/// then its quota (when quotas are checked), then it runs on the payload;
/// its output, without its skip request, becomes the payload and is
/// recorded; then the next brick follows. The first failed check or run
/// ends the run with that error.
pub open spec fn run_step(r: FlowRunV, e: FlowEventV) -> (FlowRunV, FlowActionV) {
    let done = FlowRunV { phase: FlowPhase::Finished, ..r };
    match (r.phase, e) {
        (FlowPhase::Validating(i), FlowEventV::Validated(Ok(_))) => if r.checks_quota {
            (FlowRunV { phase: FlowPhase::CheckingQuota(i), ..r }, FlowActionV::CheckQuota(i))
        } else {
            (FlowRunV { phase: FlowPhase::Running(i), ..r }, FlowActionV::Execute(i, r.payload))
        },
        (FlowPhase::Validating(_), FlowEventV::Validated(Err(b))) => (
            done,
            FlowActionV::Fail(FlowErr::BrickError(b)),
        ),
        (FlowPhase::CheckingQuota(i), FlowEventV::QuotaChecked(Ok(_))) => (
            FlowRunV { phase: FlowPhase::Running(i), ..r },
            FlowActionV::Execute(i, r.payload),
        ),
        (FlowPhase::CheckingQuota(_), FlowEventV::QuotaChecked(Err(q))) => (
            done,
            FlowActionV::Fail(FlowErr::QuotaError(q)),
        ),
        (FlowPhase::Running(i), FlowEventV::Executed(Ok(out))) => (
            FlowRunV {
                cursor: FlowCursor {
                    skip_count: requested_skip(out, r.cursor.skip_count),
                    ..r.cursor
                },
                phase: FlowPhase::Recording(i),
                payload: without_skip(out),
                ..r
            },
            FlowActionV::Record(i, without_skip(out)),
        ),
        (FlowPhase::Running(_), FlowEventV::Executed(Err(b))) => (
            done,
            FlowActionV::Fail(FlowErr::BrickError(b)),
        ),
        _ => next_brick(r),
    }
}

impl FlowRun {
    /// Is the run in order: its next brick within the flow?
    pub open spec fn wf(&self) -> bool {
        &&& self.cursor.next_index <= self.cursor.brick_count
        &&& match self.phase {
            FlowPhase::Validating(i) | FlowPhase::CheckingQuota(i) | FlowPhase::Running(i)
            | FlowPhase::Recording(i) => i < self.cursor.brick_count,
            _ => true,
        }
    }

    /// A run over `brick_count` bricks that starts from `payload`.
    pub fn new(brick_count: usize, checks_quota: bool, payload: Json) -> (r: FlowRun)
        ensures
            r.wf(),
            r.cursor == (FlowCursor { next_index: 0, skip_count: 0, brick_count }),
            r.phase == FlowPhase::Starting,
            r.checks_quota == checks_quota,
            r.payload@ == payload@,
    {
        FlowRun { cursor: FlowCursor::new(brick_count), phase: FlowPhase::Starting, checks_quota, payload }
    }

    /// Does the event answer what the run waits for?
    pub fn fits(&self, event: &FlowEvent) -> (b: bool)
        ensures
            b == event_fits(self.phase, event@),
    {
        match (self.phase, event) {
            (FlowPhase::Starting, FlowEvent::Begin) => true,
            (FlowPhase::Validating(_), FlowEvent::Validated(_)) => true,
            (FlowPhase::CheckingQuota(_), FlowEvent::QuotaChecked(_)) => true,
            (FlowPhase::Running(_), FlowEvent::Executed(_)) => true,
            (FlowPhase::Recording(_), FlowEvent::Recorded) => true,
            _ => false,
        }
    }

    /// Takes in the event and says what to do next.
    pub fn step(&mut self, event: FlowEvent) -> (a: FlowAction)
        requires
            old(self).wf(),
            event_fits(old(self).phase, event@),
        ensures
            final(self).wf(),
            (final(self)@, a@) == run_step(old(self)@, event@),
            final(self).cursor.brick_count == old(self).cursor.brick_count,
            match a@ {
                FlowActionV::Validate(i) | FlowActionV::CheckQuota(i) | FlowActionV::Execute(i, _)
                | FlowActionV::Record(i, _) => i < old(self).cursor.brick_count,
                _ => true,
            },
    {
        match event {
            FlowEvent::Validated(Ok(_)) => {
                let i = match self.phase {
                    FlowPhase::Validating(i) => i,
                    _ => 0,
                };
                if self.checks_quota {
                    self.phase = FlowPhase::CheckingQuota(i);
                    FlowAction::CheckQuota(i)
                } else {
                    self.phase = FlowPhase::Running(i);
                    FlowAction::Execute(i, self.payload.copy())
                }
            },
            FlowEvent::Validated(Err(b)) => {
                self.phase = FlowPhase::Finished;
                FlowAction::Fail(FlowError::BrickError(b))
            },
            FlowEvent::QuotaChecked(Ok(_)) => {
                let i = match self.phase {
                    FlowPhase::CheckingQuota(i) => i,
                    _ => 0,
                };
                self.phase = FlowPhase::Running(i);
                FlowAction::Execute(i, self.payload.copy())
            },
            FlowEvent::QuotaChecked(Err(q)) => {
                self.phase = FlowPhase::Finished;
                FlowAction::Fail(FlowError::QuotaError(q))
            },
            FlowEvent::Executed(Ok(out)) => {
                let i = match self.phase {
                    FlowPhase::Running(i) => i,
                    _ => 0,
                };
                let mut out = out;
                self.cursor.absorb_result(&mut out);
                self.payload = out.copy();
                self.phase = FlowPhase::Recording(i);
                FlowAction::Record(i, out)
            },
            FlowEvent::Executed(Err(b)) => {
                self.phase = FlowPhase::Finished;
                FlowAction::Fail(FlowError::BrickError(b))
            },
            _ => match self.cursor.advance() {
                FlowStep::Run(i) => {
                    self.phase = FlowPhase::Validating(i);
                    FlowAction::Validate(i)
                },
                FlowStep::Finished => {
                    self.phase = FlowPhase::Finished;
                    FlowAction::Finish(self.payload.copy())
                },
            },
        }
    }
}

/// Drives flows: the step logic shared by every run.
pub struct FlowRunner;

/// The token usage that a brick's result reports: `token_usage` for the
/// language-model bricks, nothing for the others.
pub open spec fn reported_tokens(result: JsonV, t: BrickType) -> Option<u64> {
    match t {
        BrickType::OpenAi | BrickType::Nvidia => match jget(result, "token_usage"@) {
            Some(v) => ju64(v),
            None => None,
        },
        _ => None,
    }
}

/// The brick types that fetch data from an outside service.
pub open spec fn fetches_data(t: BrickType) -> bool {
    t is HubSpot || t is Notion || t is Odoo || t is N8n
}

impl FlowRunner {
    /// Checks that every brick has a configuration.
    pub fn check_flow_shape(brick_count: usize, config_count: usize) -> (r: Result<(), FlowError>)
        ensures
            r is Ok <==> brick_count == config_count,
            r matches Err(e) ==> e@ == FlowErr::InvalidFlow(
                "Number of bricks must match number of configs"@,
            ),
    {
        if brick_count != config_count {
            return Err(
                FlowError::InvalidFlow("Number of bricks must match number of configs".to_owned()),
            );
        }
        Ok(())
    }

    /// The token usage that a brick's result reports.
    pub fn extract_token_usage(result: &Json, brick_type: &BrickType) -> (r: Option<u64>)
        ensures
            r == reported_tokens(result@, *brick_type),
    {
        match brick_type {
            BrickType::OpenAi | BrickType::Nvidia => match result.get("token_usage") {
                Some(v) => v.as_u64(),
                None => None,
            },
            _ => None,
        }
    }

    /// Does a brick type fetch data from an outside service?
    pub fn is_api_fetch_brick(brick_type: &BrickType) -> (r: bool)
        ensures
            r == fetches_data(*brick_type),
    {
        match brick_type {
            BrickType::HubSpot | BrickType::Notion | BrickType::Odoo | BrickType::N8n => true,
            _ => false,
        }
    }

    /// The key under which a brick's output is stored: `brick_<index>`.
    pub fn intermediate_key(index: usize) -> (k: String)
        ensures
            k@ == "brick_"@ + decimal(index as nat),
    {
        let n = usize_text(index);
        concat("brick_", n.as_str())
    }

    /// The key under which fetched data is stored: `fetched_<index>`.
    pub fn fetched_key(index: usize) -> (k: String)
        ensures
            k@ == "fetched_"@ + decimal(index as nat),
    {
        let n = usize_text(index);
        concat("fetched_", n.as_str())
    }

    /// The record of a run that has started.
    pub fn begin_execution(flow_id: &str, execution_id: &str, started_at: i64, input: &Json) -> (e:
        FlowExecution)
        ensures
            e.flow_id@ == flow_id@,
            e.execution_id@ == execution_id@,
            e.status == ExecutionStatus::Running,
            e.started_at == started_at,
            e.completed_at is None,
            e.input_payload@ == input@,
            e.output_payload is None,
            e.error is None,
    {
        FlowExecution {
            flow_id: flow_id.to_owned(),
            execution_id: execution_id.to_owned(),
            status: ExecutionStatus::Running,
            started_at,
            completed_at: None,
            input_payload: input.copy(),
            output_payload: None,
            error: None,
        }
    }

    /// Closes the record of a run: a successful run is completed at
    /// `completed_at` with its output; a failed run gives back its error.
    pub fn complete_execution(
        execution: FlowExecution,
        outcome: Result<Json, FlowError>,
        completed_at: i64,
    ) -> (r: Result<FlowExecution, FlowError>)
        ensures
            match (outcome, r) {
                (Ok(out), Ok(e)) => e.flow_id == execution.flow_id && e.execution_id
                    == execution.execution_id && e.started_at == execution.started_at
                    && e.input_payload == execution.input_payload && e.status
                    == ExecutionStatus::Completed && e.completed_at == Some(completed_at)
                    && e.output_payload == Some(out) && e.error == execution.error,
                (Err(x), Err(y)) => x == y,
                _ => false,
            },
    {
        match outcome {
            Ok(output) => {
                let mut e = execution;
                e.status = ExecutionStatus::Completed;
                e.completed_at = Some(completed_at);
                e.output_payload = Some(output);
                Ok(e)
            },
            Err(err) => Err(err),
        }
    }
}

// ---------------------------------------------------------------------------
// Laws.

/// After the brick at `i` asks to skip `n` bricks, the next brick to run is
/// `i + n + 1`, or the run finishes when there is no such brick.
pub proof fn lemma_skip_bricks(i: usize, n: usize, brick_count: usize)
    requires
        i < brick_count,
    ensures
        ({
            let c = FlowCursor { next_index: (i + 1) as usize, skip_count: n, brick_count };
            if i + n + 1 < brick_count {
                advance_spec(c).1 == FlowStep::Run((i + n + 1) as usize)
            } else {
                advance_spec(c).1 == FlowStep::Finished
            }
        }),
{
}

/// Without skips, every brick runs, in order: from brick `i` the next step
/// runs brick `i`.
pub proof fn lemma_no_skip_runs_next(i: usize, brick_count: usize)
    requires
        i < brick_count,
    ensures
        advance_spec(FlowCursor { next_index: i, skip_count: 0, brick_count }) == (
            FlowCursor { next_index: (i + 1) as usize, skip_count: 0, brick_count },
            FlowStep::Run(i),
        ),
{
}

/// A step runs a brick not yet passed, and moves past it; a run that has
/// finished stays finished.
pub proof fn lemma_advance_moves_forward(c: FlowCursor)
    requires
        c.next_index <= c.brick_count,
    ensures
        advance_spec(c).1 matches FlowStep::Run(k) ==> c.next_index <= k < c.brick_count
            && advance_spec(c).0.next_index == k + 1,
        advance_spec(c).1 == FlowStep::Finished ==> advance_spec(c).0.next_index == c.brick_count
            && advance_spec(advance_spec(c).0).1 == FlowStep::Finished,
{
}

/// A failed check or run ends the run with that error: the run is finished
/// and waits for nothing more, so no later brick runs.
pub proof fn lemma_failure_ends_run(r: FlowRunV, e: FlowEventV)
    requires
        event_fits(r.phase, e),
        run_step(r, e).1 is Fail,
    ensures
        run_step(r, e).0.phase == FlowPhase::Finished,
        forall|e2: FlowEventV| !event_fits(run_step(r, e).0.phase, e2),
{
}


/// The payload is threaded through the run: a brick is executed on the
/// run's current payload, which is the initial one until a brick has run and
/// then the last brick's output without its skip request; that output is
/// what is recorded, and a finished run hands back the current payload. No
/// other step changes the payload.
pub proof fn lemma_payload_threaded(r: FlowRunV, e: FlowEventV)
    requires
        event_fits(r.phase, e),
    ensures
        run_step(r, e).1 matches FlowActionV::Execute(_, p) ==> p == r.payload,
        run_step(r, e).1 matches FlowActionV::Finish(p) ==> p == r.payload,
        run_step(r, e).0.payload == (match (r.phase, e) {
            (FlowPhase::Running(_), FlowEventV::Executed(Ok(out))) => without_skip(out),
            _ => r.payload,
        }),
        run_step(r, e).1 matches FlowActionV::Record(_, p) ==> p == run_step(r, e).0.payload,
{
}


/// Each brick goes through its steps in order and by its own index: a brick
/// is executed only right after its configuration was accepted (when quotas
/// are not checked) or right after its quota was accepted (when they are),
/// and it is the same brick; its output is recorded under its index, with
/// the skip count it asked for taken over; once recorded, the run moves on
/// to a later brick or finishes with the payload.
pub proof fn lemma_brick_order(r: FlowRunV, e: FlowEventV)
    requires
        event_fits(r.phase, e),
        r.cursor.next_index <= r.cursor.brick_count,
    ensures
        r.checks_quota ==> (run_step(r, e).1 matches FlowActionV::Execute(i, _) ==> r.phase
            == FlowPhase::CheckingQuota(i) && (e matches FlowEventV::QuotaChecked(Ok(_)))),
        run_step(r, e).1 matches FlowActionV::Execute(i, _) ==> ((r.phase
            == FlowPhase::CheckingQuota(i) && (e matches FlowEventV::QuotaChecked(Ok(_)))) || (
        !r.checks_quota && r.phase == FlowPhase::Validating(i) && (e matches FlowEventV::Validated(
            Ok(_),
        )))),
        run_step(r, e).1 matches FlowActionV::CheckQuota(i) ==> r.checks_quota && r.phase
            == FlowPhase::Validating(i) && (e matches FlowEventV::Validated(Ok(_))),
        run_step(r, e).1 matches FlowActionV::Record(i, _) ==> r.phase == FlowPhase::Running(i)
            && (e matches FlowEventV::Executed(Ok(out)) && run_step(r, e).0.cursor.skip_count
            == requested_skip(out, r.cursor.skip_count)),
        run_step(r, e).1 matches FlowActionV::Validate(k) ==> (r.phase == FlowPhase::Starting
            || r.phase is Recording) && r.cursor.next_index <= k < r.cursor.brick_count,
        r.phase is Recording ==> (run_step(r, e).1 is Validate || run_step(r, e).1
            == FlowActionV::Finish(r.payload)),
{
}

} // verus!
