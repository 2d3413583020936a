//! The timers an agent has armed against itself, as a component.
//!
//! A timer firing does not run anything. It queues a wake, which waits in the
//! same place everything else addressed to this agent waits: a timer firing
//! mid-run is harmless, and no flag has to remember anything.

use crate::commands::TimerCommand;
use crate::component::{
    self, CommandEffect, CommandEffectView, RoutedToolCall, ToolAnswer, ToolAnswerView,
    answer_tool_call, is_owed,
};
use crate::components::{self, keep_timers};
use crate::components::queue::inbox::{Incoming, IncomingView};
use crate::events::{AgentDomainEvent, AgentDomainEventView};
use crate::json::{Json, JsonView, NumberView};
use crate::model::{ToolCallError, ToolCallErrorView};
use crate::state::{AgentState, AgentStateView};
use crate::text::{self, Dup, same};
use crate::timers::{
    self, CancelSelector, CancelSelectorView, TimerId, TimerKind, TimerRecord, TimerRecordView,
    TimerRequest, TimerState, ids_json, single,
};
use vstd::prelude::*;

verus! {

/// A sleep to spawn: when it elapses, the timer it names has fired.
#[derive(Debug, PartialEq, Eq)]
pub struct Sleep {
    pub id: TimerId,
    pub delay_ms: u64,
}

/// What a [`Sleep`] stands for.
#[verifier::ext_equal]
pub struct SleepView {
    pub id: Seq<char>,
    pub delay_ms: u64,
}

impl DeepView for Sleep {
    type V = SleepView;

    open spec fn deep_view(&self) -> SleepView {
        SleepView {
            id: self.id.deep_view(),
            delay_ms: self.delay_ms.deep_view(),
        }
    }
}

impl Dup for Sleep {
    fn dup(&self) -> (out: Self) {
        Sleep {
            id: self.id.dup(),
            delay_ms: self.delay_ms.dup(),
        }
    }
}

impl Clone for Sleep {
    fn clone(&self) -> (out: Self)
        ensures
            out.deep_view() == self.deep_view(),
    {
        self.dup()
    }
}

/// What one timer tool comes to: the value it answers, the events that record
/// it, and the sleep an armed timer needs.
#[derive(Debug, PartialEq, Eq)]
pub struct TimerToolRun {
    pub value: Json,
    pub events: Vec<AgentDomainEvent>,
    pub sleep_secs: Option<u64>,
}

/// What a [`TimerToolRun`] stands for.
#[verifier::ext_equal]
pub struct TimerToolRunView {
    pub value: JsonView,
    pub events: Seq<AgentDomainEventView>,
    pub sleep_secs: Option<u64>,
}

impl DeepView for TimerToolRun {
    type V = TimerToolRunView;

    open spec fn deep_view(&self) -> TimerToolRunView {
        TimerToolRunView {
            value: self.value.deep_view(),
            events: self.events.deep_view(),
            sleep_secs: self.sleep_secs.deep_view(),
        }
    }
}

/// The ids a cancel removes.
pub open spec fn cancelled_ids(armed: Seq<TimerRecordView>, selector: CancelSelectorView) -> Seq<
    Seq<char>,
> {
    match selector {
        CancelSelectorView::All => timers::ids_of(armed),
        CancelSelectorView::One(id) => if timers::timer_of(armed, id) is Some {
            seq![id]
        } else {
            seq![]
        },
    }
}

/// What a timer tool comes to; `id` is the identity a timer armed by the call
/// would have.
pub open spec fn timer_tool(
    armed: Seq<TimerRecordView>,
    name: Seq<char>,
    input: JsonView,
    id: Seq<char>,
    now: u64,
) -> Result<TimerToolRunView, ToolCallErrorView> {
    if name == "set_timer"@ {
        match timers::requested(input) {
            Err(reason) => Err(ToolCallErrorView::InvalidInput(reason)),
            Ok(request) => Ok(
                TimerToolRunView {
                    value: timers::one_member("timer_id"@, JsonView::String(id)),
                    events: seq![
                        AgentDomainEventView::TimerArmed {
                            record: TimerRecordView::armed(
                                id,
                                request.label,
                                request.message,
                                request.kind,
                                request.after_secs,
                                now,
                            ),
                            at_ms: now,
                        },
                    ],
                    sleep_secs: Some(request.after_secs),
                },
            ),
        }
    } else if name == "list_timers"@ {
        Ok(TimerToolRunView { value: timers::listing(armed, now), events: seq![], sleep_secs: None })
    } else if name == "cancel_timer"@ {
        match timers::selector_of(input) {
            Err(reason) => Err(ToolCallErrorView::InvalidInput(reason)),
            Ok(selector) => {
                let ids = cancelled_ids(armed, selector);
                Ok(
                    TimerToolRunView {
                        value: timers::one_member("cancelled"@, timers::named_ids(ids)),
                        events: if ids.len() == 0 {
                            seq![]
                        } else {
                            seq![AgentDomainEventView::TimerCancelled { ids, at_ms: now }]
                        },
                        sleep_secs: None,
                    },
                )
            },
        }
    } else {
        Err(ToolCallErrorView::InvalidInput("no tool named '"@ + name + "'"@))
    }
}

/// What the timers' own events do to an agent.
pub open spec fn timers_fold(state: AgentStateView, event: AgentDomainEventView) -> AgentStateView {
    let armed = state.timers();
    match event {
        AgentDomainEventView::TimerArmed { record, .. } => AgentStateView {
            parts: components::with_timers(state.parts, armed.push(record)),
            ..state
        },
        AgentDomainEventView::TimerCancelled { ids, .. } => AgentStateView {
            parts: components::with_timers(state.parts, timers::without(armed, ids)),
            ..state
        },
        AgentDomainEventView::TimerFired { id, next_fire_at_unix_ms, .. } => AgentStateView {
            parts: components::with_timers(state.parts, timers::after_firing(armed, id, next_fire_at_unix_ms)),
            ..state
        },
        _ => state,
    }
}

/// What a timer's firing writes: the firing, and the wake it queues.
pub open spec fn firing_events(record: TimerRecordView, now: u64) -> Seq<AgentDomainEventView> {
    let count = timers::capped_sum(record.fire_count, 1);
    seq![
        AgentDomainEventView::TimerFired {
            id: record.id,
            next_fire_at_unix_ms: record.next_fire(now),
            at_ms: now,
        },
        AgentDomainEventView::Received {
            item: IncomingView::Timer {
                id: record.firing_id(count),
                message: record.wake_message(count),
            },
            at_ms: now,
        },
    ]
}

/// What an elapsed sleep writes: nothing when its timer is gone.
pub open spec fn fired(armed: Seq<TimerRecordView>, id: Seq<char>, now: u64) -> CommandEffectView {
    match timers::timer_of(armed, id) {
        Some(record) => CommandEffectView::persist(firing_events(record, now)),
        None => CommandEffectView::none(),
    }
}

/// How long a timer sleeps again once it has fired; a one-shot does not.
pub open spec fn sleeps_again(armed: Seq<TimerRecordView>, id: Seq<char>) -> Option<u64> {
    match timers::timer_of(armed, id) {
        Some(record) => match record.kind {
            TimerKind::Recurring => Some(record.interval_secs),
            TimerKind::OneShot => None,
        },
        None => None,
    }
}

/// The sleeps every timer still armed needs at `now`.
pub open spec fn sleeps_due(armed: Seq<TimerRecordView>, now: u64) -> Seq<SleepView> {
    armed.map_values(|t: TimerRecordView| SleepView { id: t.id, delay_ms: t.remaining_ms(now) })
}

/// The timers an agent has, or none.
fn armed_timers(state: &AgentState) -> (r: TimerState)
    ensures
        r.deep_view() == state.deep_view().timers(),
{
    match state.timers() {
        Some(timers) => timers.dup(),
        None => TimerState::new(),
    }
}

/// Execute one timer tool: the value it answers and the events that record it.
/// `id` is the identity a timer armed by the call is given.
pub fn execute_timer_tool(
    state: &AgentState,
    name: &str,
    input: &Json,
    id: TimerId,
    now: u64,
) -> (r: Result<TimerToolRun, ToolCallError>)
    ensures
        match r {
            Ok(run) => timer_tool(
                state.deep_view().timers(),
                name@,
                input.deep_view(),
                id.deep_view(),
                now,
            ) == Ok::<TimerToolRunView, ToolCallErrorView>(run.deep_view()),
            Err(e) => timer_tool(
                state.deep_view().timers(),
                name@,
                input.deep_view(),
                id.deep_view(),
                now,
            ) == Err::<TimerToolRunView, ToolCallErrorView>(e.deep_view()),
        },
{
    if same(name, "set_timer") {
        match TimerRequest::from_input(input) {
            Err(reason) => Err(ToolCallError::InvalidInput(reason)),
            Ok(request) => {
                let value = single("timer_id", Json::String(id.0.clone()));
                let record = TimerRecord::arm(
                    id,
                    request.label,
                    request.message,
                    request.kind,
                    request.after_secs,
                    now,
                );
                let event = AgentDomainEvent::TimerArmed { record, at_ms: now };
                let mut events: Vec<AgentDomainEvent> = Vec::new();
                events.push(event);
                proof {
                    assert(events.deep_view() =~= seq![event.deep_view()]);
                }
                Ok(TimerToolRun { value, events, sleep_secs: Some(request.after_secs) })
            },
        }
    } else if same(name, "list_timers") {
        let events: Vec<AgentDomainEvent> = Vec::new();
        proof {
            assert(events.deep_view() =~= seq![]);
        }
        Ok(TimerToolRun { value: armed_timers(state).listed(now), events, sleep_secs: None })
    } else if same(name, "cancel_timer") {
        match CancelSelector::from_input(input) {
            Err(reason) => Err(ToolCallError::InvalidInput(reason)),
            Ok(selector) => {
                let timers = armed_timers(state);
                let ids = match selector {
                    CancelSelector::All => timers.all_ids(),
                    CancelSelector::One(id) => {
                        let mut ids: Vec<TimerId> = Vec::new();
                        if timers.find(&id).is_some() {
                            ids.push(id);
                        }
                        proof {
                            assert(ids.deep_view() =~= cancelled_ids(
                                timers.deep_view(),
                                CancelSelectorView::One(id.deep_view()),
                            ));
                        }
                        ids
                    },
                };
                let value = single("cancelled", ids_json(&ids));
                let mut events: Vec<AgentDomainEvent> = Vec::new();
                if ids.len() > 0 {
                    let event = AgentDomainEvent::TimerCancelled { ids, at_ms: now };
                    events.push(event);
                    proof {
                        assert(events.deep_view() =~= seq![event.deep_view()]);
                    }
                } else {
                    proof {
                        assert(events.deep_view() =~= seq![]);
                    }
                }
                Ok(TimerToolRun { value, events, sleep_secs: None })
            },
        }
    } else {
        let mut reason = "no tool named '".to_owned();
        reason.append(name);
        reason.append("'");
        Err(ToolCallError::InvalidInput(reason))
    }
}

/// What a timer command comes to. A delay is that of the sleep the timer then
/// needs, in seconds.
#[derive(Debug, PartialEq, Eq)]
pub enum TimerOutcome {
    /// A tool call was answered, or refused.
    Answered { answer: ToolAnswer, sleep_secs: Option<u64> },
    /// A sleep elapsed.
    Fired { effect: CommandEffect, sleep_secs: Option<u64> },
}

/// How an owed timer call ends: what it answers, and the sleep it needs.
pub open spec fn timer_answer(
    is_owed: bool,
    run: Result<TimerToolRunView, ToolCallErrorView>,
) -> (ToolAnswerView, Option<u64>) {
    match run {
        Ok(run) => (
            component::answered(is_owed, Ok((run.value, run.events))),
            if is_owed {
                run.sleep_secs
            } else {
                None
            },
        ),
        Err(e) => (component::answered(is_owed, Err(e)), None),
    }
}

/// Timers this agent has armed against itself.
#[derive(Debug, PartialEq, Eq)]
pub struct Timers;

impl Timers {
    /// Decide what a timer command means. `id` is the identity a timer armed by
    /// a tool call is given.
    pub fn handle(cmd: &TimerCommand, state: &AgentState, id: TimerId, now: u64) -> (r: TimerOutcome)
        ensures
            match *cmd {
                TimerCommand::ToolCall(call) => r matches TimerOutcome::Answered {
                    answer,
                    sleep_secs,
                } && (answer.deep_view(), sleep_secs) == timer_answer(
                    component::owed(state.deep_view(), call.tool_call_id@),
                    timer_tool(
                        state.deep_view().timers(),
                        call.name@,
                        call.input.deep_view(),
                        id.deep_view(),
                        now,
                    ),
                ),
                TimerCommand::TimerFired { id: elapsed } => r matches TimerOutcome::Fired {
                    effect,
                    sleep_secs,
                } && effect.deep_view() == fired(
                    state.deep_view().timers(),
                    elapsed.deep_view(),
                    now,
                ) && sleep_secs == sleeps_again(state.deep_view().timers(), elapsed.deep_view()),
            },
    {
        match cmd {
            TimerCommand::ToolCall(call) => {
                let (answer, sleep_secs) = Timers::tool_call(state, call, id, now);
                TimerOutcome::Answered { answer, sleep_secs }
            },
            TimerCommand::TimerFired { id: elapsed } => {
                let (effect, sleep_secs) = Timers::timer_fired(state, elapsed, now);
                TimerOutcome::Fired { effect, sleep_secs }
            },
        }
    }

    /// Answer one of the timer tools. The delay is that of the sleep an armed
    /// timer needs, in seconds; a refused call needs none.
    pub fn tool_call(state: &AgentState, call: &RoutedToolCall, id: TimerId, now: u64) -> (r: (
        ToolAnswer,
        Option<u64>,
    ))
        ensures
            (r.0.deep_view(), r.1) == timer_answer(
                component::owed(state.deep_view(), call.tool_call_id@),
                timer_tool(
                    state.deep_view().timers(),
                    call.name@,
                    call.input.deep_view(),
                    id.deep_view(),
                    now,
                ),
            ),
    {
        match execute_timer_tool(state, call.name.as_str(), &call.input, id, now) {
            Ok(run) => {
                let is_owed = is_owed(state, call.tool_call_id.as_str());
                let answer = answer_tool_call(
                    state,
                    call.tool_call_id.as_str(),
                    Ok((run.value, run.events)),
                );
                if is_owed {
                    (answer, run.sleep_secs)
                } else {
                    (answer, None)
                }
            },
            Err(e) => (answer_tool_call(state, call.tool_call_id.as_str(), Err(e)), None),
        }
    }

    /// A timer's sleep elapsed. Re-arm a recurring timer, then queue the wake.
    /// The delay is that of the next sleep, in seconds. A sleep whose timer is
    /// gone is ignored.
    pub fn timer_fired(state: &AgentState, id: &TimerId, now: u64) -> (r: (
        CommandEffect,
        Option<u64>,
    ))
        ensures
            r.0.deep_view() == fired(state.deep_view().timers(), id.deep_view(), now),
            r.1 == sleeps_again(state.deep_view().timers(), id.deep_view()),
    {
        let timers = armed_timers(state);
        let record = match timers.find(id) {
            Some(record) => record,
            None => {
                return (CommandEffect::none(), None);
            },
        };
        let count: u64 = record.fire_count.saturating_add(1);
        let fired = AgentDomainEvent::TimerFired {
            id: record.id.dup(),
            next_fire_at_unix_ms: record.next_fire(now),
            at_ms: now,
        };
        let received = AgentDomainEvent::Received {
            item: Incoming::Timer {
                id: record.firing_id(count),
                message: record.wake_message(count),
            },
            at_ms: now,
        };
        let mut events: Vec<AgentDomainEvent> = Vec::new();
        events.push(fired);
        events.push(received);
        proof {
            assert(events.deep_view() =~= seq![fired.deep_view(), received.deep_view()]);
        }
        let again = match record.kind {
            TimerKind::Recurring => Some(record.interval_secs),
            TimerKind::OneShot => None,
        };
        (CommandEffect::persist(events), again)
    }

    /// Every timer that survived, with the delay it has left; nothing left
    /// when it is already due.
    pub fn on_load(state: &AgentState, now: u64) -> (r: Vec<Sleep>)
        ensures
            r.deep_view() == sleeps_due(state.deep_view().timers(), now),
    {
        let timers = armed_timers(state);
        let ghost want = sleeps_due(timers.deep_view(), now);
        let records = timers.records();
        let mut out: Vec<Sleep> = Vec::new();
        for i in 0..records.len()
            invariant
                want == sleeps_due(records.deep_view(), now),
                want.len() == records.len(),
                out.deep_view() == want.take(i as int),
        {
            let ghost had = out.deep_view();
            let sleep = Sleep { id: records[i].id.dup(), delay_ms: records[i].remaining_ms(now) };
            proof {
                assert(records.deep_view()[i as int] == records@[i as int].deep_view());
                assert(sleep.deep_view() == want[i as int]);
            }
            out.push(sleep);
            proof {
                assert(out.deep_view() =~= had.push(want[i as int]));
                assert(want.take(i + 1) =~= want.take(i as int).push(want[i as int]));
            }
        }
        proof {
            assert(want.take(records.len() as int) =~= want);
        }
        out
    }

    /// Fold one of the timers' events into state.
    pub fn apply(state: &mut AgentState, event: &AgentDomainEvent)
        ensures
            final(state).deep_view() == timers_fold(old(state).deep_view(), event.deep_view()),
    {
        let ghost after = timers_fold(state.deep_view(), event.deep_view());
        let mut timers = armed_timers(state);
        match event {
            AgentDomainEvent::TimerArmed { record, .. } => {
                timers.arm(record.dup());
            },
            AgentDomainEvent::TimerCancelled { ids, .. } => {
                timers.cancel(ids);
            },
            AgentDomainEvent::TimerFired { id, next_fire_at_unix_ms, .. } => {
                timers.fired(id, *next_fire_at_unix_ms);
            },
            _ => {
                return;
            },
        }
        keep_timers(&mut state.parts, timers);
        proof {
            assert(state.deep_view() =~= after);
        }
    }
}

/// A cancelled timer's sleep still arrives, and writes nothing.
pub proof fn law_a_cancelled_timer_does_not_fire(
    state: AgentStateView,
    ids: Seq<Seq<char>>,
    at_ms: u64,
    id: Seq<char>,
    now: u64,
)
    requires
        ids.contains(id),
    ensures
        fired(
            timers_fold(state, AgentDomainEventView::TimerCancelled { ids, at_ms }).timers(),
            id,
            now,
        ) == CommandEffectView::none(),
{
    let armed = state.timers();
    crate::components::law_a_part_reads_back_what_was_kept(
        state.parts,
        timers::without(armed, ids),
        seq![],
    );
    crate::timers::law_a_stale_sleep_finds_no_timer(armed, ids, id);
}

/// A timer that is armed fires once its sleep elapses: the wake is queued.
pub proof fn law_an_armed_timer_fires(
    state: AgentStateView,
    record: TimerRecordView,
    at_ms: u64,
    now: u64,
)
    requires
        timers::timer_of(state.timers(), record.id) is None,
    ensures
        fired(
            timers_fold(state, AgentDomainEventView::TimerArmed { record, at_ms }).timers(),
            record.id,
            now,
        ) == CommandEffectView::persist(firing_events(record, now)),
{
    let armed = state.timers();
    crate::components::law_a_part_reads_back_what_was_kept(
        state.parts,
        armed.push(record),
        seq![],
    );
    crate::timers::lemma_position(armed, record.id);
    let all = armed.push(record);
    assert forall|i: int| 0 <= i < armed.len() implies (#[trigger] all[i]).id != record.id by {
        assert(all[i] == armed[i]);
    }
    crate::timers::lemma_is_position(all, record.id, armed.len() as int);
}

/// A timer that is set is the timer that was asked for: of the kind the input
/// names, with its message, due after its seconds and not yet fired. Once its
/// sleep elapses, a one-shot asks for no further sleep and is armed no more,
/// while a recurring one sleeps for its seconds again and stays armed, having
/// fired once. Every other timer stays as it was.
pub proof fn law_a_set_timer_is_the_one_asked_for(
    state: AgentStateView,
    input: JsonView,
    id: Seq<char>,
    secs: u64,
    message: Seq<char>,
    now: u64,
    later: u64,
)
    requires
        input.get("kind"@) == Some(JsonView::String("one_shot"@)) || input.get("kind"@) == Some(
            JsonView::String("recurring"@),
        ),
        input.get("after_secs"@) == Some(JsonView::Number(NumberView::PosInt(secs))),
        secs >= 1,
        input.get("message"@) == Some(JsonView::String(message)),
        message.len() > 0,
        forall|i: int| 0 <= i < state.timers().len() ==> (#[trigger] state.timers()[i]).id != id,
    ensures
        ({
            let once = input.get("kind"@) == Some(JsonView::String("one_shot"@));
            let armed = state.timers();
            &&& timer_tool(armed, "set_timer"@, input, id, now) matches Ok(run)
            &&& run.value == JsonView::Object(seq![("timer_id"@, JsonView::String(id))])
            &&& run.sleep_secs == Some(secs)
            &&& run.events.len() == 1
            &&& run.events[0] matches AgentDomainEventView::TimerArmed { record, at_ms }
            &&& at_ms == now
            &&& record.id == id
            &&& record.message == message
            &&& input.get("label"@) matches Some(JsonView::String(text)) ==> record.label == text
            &&& record.kind == (if once {
                TimerKind::OneShot
            } else {
                TimerKind::Recurring
            })
            &&& record.interval_secs == secs
            &&& record.fire_count == 0
            &&& now + secs * 1000 <= u64::MAX ==> record.fire_at_unix_ms == now + secs * 1000
            &&& now + secs * 1000 > u64::MAX ==> record.fire_at_unix_ms == u64::MAX
            &&& ({
                let held = timers_fold(state, run.events[0]);
                let effect = fired(held.timers(), id, later);
                let over = timers_fold(held, effect.events[0]);
                &&& held.timers() == armed.push(record)
                &&& effect.events.len() == 2
                &&& once ==> sleeps_again(held.timers(), id) is None && over.timers() == armed
                &&& !once ==> sleeps_again(held.timers(), id) == Some(secs) && over.timers().len()
                    == armed.len() + 1 && over.timers().drop_last() == armed && ({
                    let next = over.timers().last();
                    &&& next.id == id
                    &&& next.message == message
                    &&& next.label == record.label
                    &&& next.kind == TimerKind::Recurring
                    &&& next.interval_secs == secs
                    &&& next.fire_count == 1
                    &&& later + secs * 1000 <= u64::MAX ==> next.fire_at_unix_ms == later + secs
                        * 1000
                })
            })
        }),
{
    crate::timers::law_a_request_is_taken_as_it_reads(input);
    reveal_strlit("one_shot");
    reveal_strlit("recurring");
    assert("one_shot"@.len() != "recurring"@.len());
    let armed = state.timers();
    let run = timer_tool(armed, "set_timer"@, input, id, now)->Ok_0;
    let record = run.events[0]->TimerArmed_record;
    let held = timers_fold(state, run.events[0]);
    let all = armed.push(record);
    crate::components::law_a_part_reads_back_what_was_kept(state.parts, all, seq![]);
    assert forall|i: int| 0 <= i < armed.len() implies (#[trigger] all[i]).id != id by {
        assert(all[i] == armed[i]);
    }
    crate::timers::lemma_is_position(all, id, armed.len() as int);
    assert(timers::timer_of(held.timers(), id) == Some(record));
    let event = fired(held.timers(), id, later).events[0];
    let next = record.next_fire(later);
    crate::components::law_a_part_reads_back_what_was_kept(
        held.parts,
        timers::after_firing(all, id, next),
        seq![],
    );
    crate::timers::lemma_letting_the_last_go(armed, record);
    let over = timers_fold(held, event);
    assert(over.timers() == timers::after_firing(all, id, next));
    if record.kind == TimerKind::Recurring {
        assert(over.timers().drop_last() =~= armed);
    }
}

/// A timer is refused when its kind is neither of the two, and then nothing is
/// armed; so is a call to a tool that timers do not have.
pub proof fn law_a_timer_of_no_kind_is_refused(
    armed: Seq<TimerRecordView>,
    name: Seq<char>,
    input: JsonView,
    id: Seq<char>,
    now: u64,
)
    ensures
        input.get("kind"@) != Some(JsonView::String("one_shot"@)) && input.get("kind"@) != Some(
            JsonView::String("recurring"@),
        ) ==> timer_tool(armed, "set_timer"@, input, id, now) == Err::<
            TimerToolRunView,
            ToolCallErrorView,
        >(
            ToolCallErrorView::InvalidInput("set_timer.kind must be 'one_shot' or 'recurring'"@),
        ),
        name != "set_timer"@ && name != "list_timers"@ && name != "cancel_timer"@ ==> timer_tool(
            armed,
            name,
            input,
            id,
            now,
        ) == Err::<TimerToolRunView, ToolCallErrorView>(
            ToolCallErrorView::InvalidInput("no tool named '"@ + name + "'"@),
        ),
{
    crate::timers::law_a_request_is_taken_as_it_reads(input);
}

/// Listing the timers arms none, cancels none and asks for no sleep.
pub proof fn law_listing_timers_changes_none(
    armed: Seq<TimerRecordView>,
    input: JsonView,
    id: Seq<char>,
    now: u64,
)
    ensures
        timer_tool(armed, "list_timers"@, input, id, now) matches Ok(run) && run.events.len() == 0
            && run.sleep_secs is None && (run.value matches JsonView::Array(items) && items.len()
            == armed.len() && forall|i: int|
            0 <= i < armed.len() ==> (#[trigger] items[i]).get("id"@) == Some(
                JsonView::String(armed[i].id),
            )),
{
    reveal_strlit("set_timer");
    reveal_strlit("list_timers");
    assert("set_timer"@.len() != "list_timers"@.len());
    let items = timers::listing(armed, now)->Array_0;
    assert forall|i: int| 0 <= i < armed.len() implies (#[trigger] items[i]).get("id"@) == Some(
        JsonView::String(armed[i].id),
    ) by {
        crate::timers::law_a_timer_is_listed_as_it_is(armed, now, i);
    }
}

/// Cancelling the timer of an id answers with that id and lets exactly that
/// timer go; cancelling an id nothing has writes nothing and answers with no
/// id; cancelling all answers with every id, in order, and leaves none.
pub proof fn law_a_cancel_lets_go_of_what_it_names(
    state: AgentStateView,
    input: JsonView,
    target: Seq<char>,
    id: Seq<char>,
    now: u64,
)
    ensures
        ({
            let armed = state.timers();
            let all = input.get("all"@) == Some(JsonView::Bool(true));
            let named = !all && input.get("id"@) == Some(JsonView::String(target));
            let held = exists|i: int| 0 <= i < armed.len() && (#[trigger] armed[i]).id == target;
            let r = timer_tool(armed, "cancel_timer"@, input, id, now);
            &&& named && held ==> (r matches Ok(run) && run.sleep_secs is None && run.value
                == JsonView::Object(
                seq![("cancelled"@, JsonView::Array(seq![JsonView::String(target)]))],
            ) && run.events == seq![
                AgentDomainEventView::TimerCancelled { ids: seq![target], at_ms: now },
            ] && forall|t: TimerRecordView| #[trigger]
                timers_fold(state, run.events[0]).timers().contains(t) <==> armed.contains(t)
                    && t.id != target)
            &&& named && !held ==> (r matches Ok(run) && run.sleep_secs is None
                && run.events.len() == 0 && run.value == JsonView::Object(
                seq![("cancelled"@, JsonView::Array(seq![]))],
            ))
            &&& all ==> (r matches Ok(run) && run.sleep_secs is None && (armed.len() == 0
                ==> run.events.len() == 0) && (armed.len() > 0 ==> run.events.len() == 1
                && timers_fold(state, run.events[0]).timers().len() == 0))
        }),
{
    let armed = state.timers();
    let all = input.get("all"@) == Some(JsonView::Bool(true));
    let named = !all && input.get("id"@) == Some(JsonView::String(target));
    reveal_strlit("set_timer");
    reveal_strlit("list_timers");
    reveal_strlit("cancel_timer");
    assert("set_timer"@.len() == 9 && "list_timers"@.len() == 11 && "cancel_timer"@.len() == 12);
    crate::timers::law_a_cancel_means_what_it_names(input, target);
    crate::timers::lemma_position(armed, target);
    let run = timer_tool(armed, "cancel_timer"@, input, id, now)->Ok_0;
    if named {
        let p = timers::position_of(armed, target);
        if p < armed.len() {
            assert(armed[p].id == target);
            assert(timers::named_ids(seq![target]) == JsonView::Array(seq![JsonView::String(target)])) by {
                assert(seq![target].map_values(|id: Seq<char>| JsonView::String(id))
                    =~= seq![JsonView::String(target)]);
            }
            crate::components::law_a_part_reads_back_what_was_kept(
                state.parts,
                timers::without(armed, seq![target]),
                seq![],
            );
            crate::timers::law_cancelled_timers_are_gone(armed, seq![target]);
            assert forall|x: Seq<char>| #[trigger] seq![target].contains(x) <==> x == target by {
                if x == target {
                    assert(seq![target][0] == x);
                }
            }
        } else {
            assert(timers::named_ids(seq![]) == JsonView::Array(seq![])) by {
                assert(Seq::<Seq<char>>::empty().map_values(|id: Seq<char>| JsonView::String(id))
                    =~= seq![]);
            }
        }
    }
    if all {
        crate::components::law_a_part_reads_back_what_was_kept(
            state.parts,
            timers::without(armed, timers::ids_of(armed)),
            seq![],
        );
        crate::timers::law_cancelling_all_leaves_nothing(armed);
    }
}

/// A timer's firing is written as its own firing, at the time it fired, and
/// then as a wake that names which firing it is and says the timer's message.
/// Only a recurring timer is given a next time.
pub proof fn law_a_firing_queues_its_wake(
    armed: Seq<TimerRecordView>,
    p: int,
    now: u64,
)
    requires
        0 <= p < armed.len(),
        forall|i: int| 0 <= i < p ==> (#[trigger] armed[i]).id != armed[p].id,
        armed[p].fire_count < u64::MAX,
    ensures
        ({
            let t = armed[p];
            let count = text::decimal((t.fire_count + 1) as nat);
            let events = fired(armed, t.id, now).events;
            &&& events.len() == 2
            &&& events[0] matches AgentDomainEventView::TimerFired {
                id,
                next_fire_at_unix_ms,
                at_ms,
            } && id == t.id && at_ms == now && (t.kind == TimerKind::OneShot
                ==> next_fire_at_unix_ms is None) && (t.kind == TimerKind::Recurring && now
                + t.interval_secs * 1000 <= u64::MAX ==> next_fire_at_unix_ms == Some(
                (now + t.interval_secs * 1000) as u64,
            ))
            &&& events[1] == (AgentDomainEventView::Received {
                item: IncomingView::Timer {
                    id: t.id + ":"@ + count,
                    message: "Timer '"@ + t.label + "' fired (#"@ + count + "): "@ + t.message,
                },
                at_ms: now,
            })
        }),
{
    crate::timers::lemma_is_position(armed, armed[p].id, p);
}

/// A timer that survives a restart sleeps for what it has left, and not at all
/// when it is already due. No timer is forgotten and none is added.
pub proof fn law_a_surviving_timer_sleeps_for_what_it_has_left(
    armed: Seq<TimerRecordView>,
    now: u64,
    i: int,
)
    requires
        0 <= i < armed.len(),
    ensures
        sleeps_due(armed, now).len() == armed.len(),
        sleeps_due(armed, now)[i].id == armed[i].id,
        armed[i].fire_at_unix_ms <= now ==> sleeps_due(armed, now)[i].delay_ms == 0,
        armed[i].fire_at_unix_ms > now ==> now + sleeps_due(armed, now)[i].delay_ms
            == armed[i].fire_at_unix_ms,
{
}

/// An owed call is answered with what the tool gave and sleeps as it asked; a
/// call nothing owes sleeps for nothing, and a refused one neither.
pub proof fn law_only_an_owed_call_sleeps(run: TimerToolRunView, e: ToolCallErrorView)
    ensures
        timer_answer(true, Ok(run)).1 == run.sleep_secs,
        timer_answer(true, Ok(run)).0 == component::answered(true, Ok((run.value, run.events))),
        timer_answer(false, Ok(run)).1 is None,
        timer_answer(true, Err(e)).1 is None,
        timer_answer(true, Err(e)).0 == component::answered(true, Err(e)),
{
}

} // verus!
