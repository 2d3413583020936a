//! `set_timer`, `list_timers`, `cancel_timer`: an agent asking to be woken.
//!
//! Arming is a request for time to pass: a [`Wake`], which is never recorded.
//! The durable fact is the record, whose fire time is stamped once; a load asks
//! for every wake again from what is armed, with the delay that is left.
//!
//! A sleep cannot be called back, so a cancelled timer's sleep still arrives.
//! It is dropped by not being recognised: [`woke`] knows no such timer.

use crate::capabilities::claims::{
    self, Claim, ClaimView, ClaimedTool, ClaimedToolView, NO_ARGUMENTS,
};
use crate::inbox::{Incoming, IncomingView};
use crate::json::{self, Json, JsonView, NumberView, compact};
use crate::text::{self, Dup, number};
use crate::timers::{
    self, CancelSelector, CancelSelectorView, TimerId, TimerKind, TimerRecord, TimerRecordView,
    TimerRequest, TimerState, ids_json, single,
};
use vstd::prelude::*;

verus! {

/// The tool that arms one.
pub const SET_TOOL: &'static str = "set_timer";

/// The tool that reads them back.
pub const LIST_TOOL: &'static str = "list_timers";

/// The tool that removes one, or all of them.
pub const CANCEL_TOOL: &'static str = "cancel_timer";

/// What `set_timer` takes.
pub const SET_SCHEMA: &'static str = "{\"properties\":{\"after_secs\":{\"minimum\":1,\"type\":\"integer\"},\"kind\":{\"enum\":[\"one_shot\",\"recurring\"],\"type\":\"string\"},\"label\":{\"type\":\"string\"},\"message\":{\"type\":\"string\"}},\"required\":[\"kind\",\"after_secs\",\"message\"],\"type\":\"object\"}";

/// What `cancel_timer` takes.
pub const CANCEL_SCHEMA: &'static str = "{\"properties\":{\"all\":{\"type\":\"boolean\"},\"id\":{\"type\":\"string\"}},\"type\":\"object\"}";

/// What the model is told `set_timer` does.
pub const SET_DESCRIPTION: &'static str = "Arm a timer that wakes you with `message` after `after_secs` seconds, once or again and again.";

/// What the model is told `list_timers` does.
pub const LIST_DESCRIPTION: &'static str = "List the timers you have armed, with their ids and the delay each has left.";

/// What the model is told `cancel_timer` does.
pub const CANCEL_DESCRIPTION: &'static str = "Cancel one armed timer by `id`, or every one of them with `all`.";

/// The permission to arm one.
#[derive(Debug, Clone, Copy, PartialEq, Eq, Structural)]
pub struct TimersCapability;

impl DeepView for TimersCapability {
    type V = TimersCapability;

    open spec fn deep_view(&self) -> TimersCapability {
        *self
    }
}

impl Dup for TimersCapability {
    fn dup(&self) -> (out: Self) {
        *self
    }
}

/// One sleep asked for.
#[derive(Debug, PartialEq, Eq)]
pub struct Wake {
    pub id: String,
    pub after_secs: u64,
}

/// What a [`Wake`] stands for.
#[verifier::ext_equal]
pub struct WakeView {
    pub id: Seq<char>,
    pub after_secs: u64,
}

impl DeepView for Wake {
    type V = WakeView;

    open spec fn deep_view(&self) -> WakeView {
        WakeView {
            id: self.id.deep_view(),
            after_secs: self.after_secs.deep_view(),
        }
    }
}

impl Dup for Wake {
    fn dup(&self) -> (out: Self) {
        Wake {
            id: self.id.dup(),
            after_secs: self.after_secs.dup(),
        }
    }
}

impl Clone for Wake {
    fn clone(&self) -> (out: Self)
        ensures
            out.deep_view() == self.deep_view(),
    {
        self.dup()
    }
}

/// What a call to `set_timer` came to.
#[derive(Debug, PartialEq, Eq)]
pub enum Armed {
    /// The model gets a tool error, and nothing was armed.
    Refused(String),
    Armed { record: TimerRecord, wake: Wake, told: String },
}

/// What a [`Armed`] stands for.
#[verifier::ext_equal]
pub enum ArmedView {
    Refused(Seq<char>),
    Armed { record: TimerRecordView, wake: WakeView, told: Seq<char> },
}

impl DeepView for Armed {
    type V = ArmedView;

    open spec fn deep_view(&self) -> ArmedView {
        match self {
            Armed::Refused(a) => ArmedView::Refused(a.deep_view()),
            Armed::Armed { record, wake, told } => ArmedView::Armed {
                record: record.deep_view(),
                wake: wake.deep_view(),
                told: told.deep_view(),
            },
        }
    }
}

impl Dup for Armed {
    fn dup(&self) -> (out: Self) {
        match self {
            Armed::Refused(a) => Armed::Refused(a.dup()),
            Armed::Armed { record, wake, told } => Armed::Armed {
                record: record.dup(),
                wake: wake.dup(),
                told: told.dup(),
            },
        }
    }
}

impl Clone for Armed {
    fn clone(&self) -> (out: Self)
        ensures
            out.deep_view() == self.deep_view(),
    {
        self.dup()
    }
}

/// What a call to `set_timer` comes to at `now`; `id` is the identity a timer
/// it arms has.
pub open spec fn arming(input: JsonView, id: Seq<char>, now: u64) -> ArmedView {
    match timers::requested(input) {
        Err(reason) => ArmedView::Refused(reason),
        Ok(q) => ArmedView::Armed {
            record: TimerRecordView::armed(id, q.label, q.message, q.kind, q.after_secs, now),
            wake: WakeView { id, after_secs: q.after_secs },
            told: json::compact_text(timers::one_member("timer_id"@, JsonView::String(id))),
        },
    }
}

/// The model called `set_timer`; `id` is the identity a timer it arms has. The
/// fire time is stamped here and travels with the record: a fold that worked it
/// out again would move every timer forward on every replay.
pub fn arm(input: &Json, id: TimerId, now: u64) -> (r: Armed)
    ensures
        r.deep_view() == arming(input.deep_view(), id.deep_view(), now),
{
    match TimerRequest::from_input(input) {
        Err(reason) => Armed::Refused(reason),
        Ok(q) => {
            let wake = Wake { id: id.0.clone(), after_secs: q.after_secs };
            let told = compact(&single("timer_id", Json::String(id.0.clone())));
            let record = TimerRecord::arm(id, q.label, q.message, q.kind, q.after_secs, now);
            Armed::Armed { record, wake, told }
        },
    }
}

/// The model called `list_timers`: an answer and only an answer.
pub fn list(state: &TimerState, now: u64) -> (r: String)
    ensures
        r@ == json::compact_text(timers::listing(state.deep_view(), now)),
{
    compact(&state.listed(now))
}

/// What a call to `cancel_timer` came to.
#[derive(Debug, PartialEq, Eq)]
pub enum Cancelled {
    /// The model gets a tool error.
    Refused(String),
    /// Cancelling nothing records nothing and is still an answer, so `ids` may
    /// be empty.
    Cancelled { ids: Vec<TimerId>, told: String },
}

/// What a [`Cancelled`] stands for.
#[verifier::ext_equal]
pub enum CancelledView {
    Refused(Seq<char>),
    Cancelled { ids: Seq<Seq<char>>, told: Seq<char> },
}

impl DeepView for Cancelled {
    type V = CancelledView;

    open spec fn deep_view(&self) -> CancelledView {
        match self {
            Cancelled::Refused(a) => CancelledView::Refused(a.deep_view()),
            Cancelled::Cancelled { ids, told } => CancelledView::Cancelled {
                ids: ids.deep_view(),
                told: told.deep_view(),
            },
        }
    }
}

impl Dup for Cancelled {
    fn dup(&self) -> (out: Self) {
        match self {
            Cancelled::Refused(a) => Cancelled::Refused(a.dup()),
            Cancelled::Cancelled { ids, told } => Cancelled::Cancelled {
                ids: ids.dup(),
                told: told.dup(),
            },
        }
    }
}

impl Clone for Cancelled {
    fn clone(&self) -> (out: Self)
        ensures
            out.deep_view() == self.deep_view(),
    {
        self.dup()
    }
}

/// What a call to `cancel_timer` comes to.
pub open spec fn cancelling(armed: Seq<TimerRecordView>, input: JsonView) -> CancelledView {
    match timers::selector_of(input) {
        Err(reason) => CancelledView::Refused(reason),
        Ok(selector) => {
            let ids = timers::selected(armed, selector);
            CancelledView::Cancelled {
                ids,
                told: json::compact_text(timers::one_member("cancelled"@, timers::named_ids(ids))),
            }
        },
    }
}

/// The model called `cancel_timer`. Naming a timer that has already fired is no
/// error, and the empty list says so.
pub fn cancel(state: &TimerState, input: &Json) -> (r: Cancelled)
    ensures
        r.deep_view() == cancelling(state.deep_view(), input.deep_view()),
{
    match CancelSelector::from_input(input) {
        Err(reason) => Cancelled::Refused(reason),
        Ok(selector) => {
            let ids = state.select(&selector);
            let told = compact(&single("cancelled", ids_json(&ids)));
            Cancelled::Cancelled { ids, told }
        },
    }
}

/// A timer fired.
#[derive(Debug, PartialEq, Eq)]
pub struct Fired {
    pub id: TimerId,
    /// When a recurring timer fires again; `None` removes a one-shot.
    pub next_fire_at_unix_ms: Option<u64>,
    /// The firing, as one more thing addressed to the agent.
    pub item: Incoming,
    /// A recurring timer's next sleep.
    pub wake: Option<Wake>,
}

/// What a [`Fired`] stands for.
#[verifier::ext_equal]
pub struct FiredView {
    pub id: Seq<char>,
    pub next_fire_at_unix_ms: Option<u64>,
    pub item: IncomingView,
    pub wake: Option<WakeView>,
}

impl DeepView for Fired {
    type V = FiredView;

    open spec fn deep_view(&self) -> FiredView {
        FiredView {
            id: self.id.deep_view(),
            next_fire_at_unix_ms: self.next_fire_at_unix_ms.deep_view(),
            item: self.item.deep_view(),
            wake: self.wake.deep_view(),
        }
    }
}

impl Dup for Fired {
    fn dup(&self) -> (out: Self) {
        Fired {
            id: self.id.dup(),
            next_fire_at_unix_ms: self.next_fire_at_unix_ms.dup(),
            item: self.item.dup(),
            wake: self.wake.dup(),
        }
    }
}

impl Clone for Fired {
    fn clone(&self) -> (out: Self)
        ensures
            out.deep_view() == self.deep_view(),
    {
        self.dup()
    }
}

/// What a timer's firing at `now` comes to.
pub open spec fn firing(record: TimerRecordView, now: u64) -> FiredView {
    let count = timers::capped_sum(record.fire_count, 1);
    FiredView {
        id: record.id,
        next_fire_at_unix_ms: record.next_fire(now),
        item: IncomingView::Timer {
            id: record.firing_id(count),
            message: record.wake_message(count),
        },
        wake: match record.kind {
            TimerKind::Recurring => Some(
                WakeView { id: record.id, after_secs: record.interval_secs },
            ),
            TimerKind::OneShot => None,
        },
    }
}

/// A sleep elapsed; `None` when no timer of this id is armed.
pub fn woke(state: &TimerState, id: &str, now: u64) -> (r: Option<Fired>)
    ensures
        r.deep_view() == (match timers::timer_of(state.deep_view(), id@) {
            Some(record) => Some(firing(record, now)),
            None => None,
        }),
{
    let id = TimerId(id.to_owned());
    match state.find(&id) {
        None => None,
        Some(record) => {
            let count: u64 = record.fire_count.saturating_add(1);
            let wake = match record.kind {
                TimerKind::Recurring => Some(
                    Wake { id: record.id.0.clone(), after_secs: record.interval_secs },
                ),
                TimerKind::OneShot => None,
            };
            Some(
                Fired {
                    id: record.id.dup(),
                    next_fire_at_unix_ms: record.next_fire(now),
                    item: Incoming::Timer {
                        id: record.firing_id(count),
                        message: record.wake_message(count),
                    },
                    wake,
                },
            )
        },
    }
}

/// The wakes a load at `now` asks for.
pub open spec fn wakes_due(armed: Seq<TimerRecordView>, now: u64) -> Seq<WakeView> {
    armed.map_values(
        |t: TimerRecordView|
            WakeView { id: t.id, after_secs: (t.remaining_ms(now) / 1000) as u64 },
    )
}

/// Every timer still armed, asked for again, with the delay it has left and not
/// its interval.
pub fn reloaded(state: &TimerState, now: u64) -> (r: Vec<Wake>)
    ensures
        r.deep_view() == wakes_due(state.deep_view(), now),
{
    let records = state.records();
    let ghost all = wakes_due(state.deep_view(), now);
    let mut out: Vec<Wake> = Vec::new();
    for i in 0..records.len()
        invariant
            records.deep_view() == state.deep_view(),
            all == wakes_due(state.deep_view(), now),
            out.deep_view() == all.take(i as int),
    {
        let ghost had = out.deep_view();
        proof {
            assert(records.deep_view()[i as int] == records@[i as int].deep_view());
        }
        let left: u64 = records[i].remaining_ms(now) / 1000;
        out.push(Wake { id: records[i].id.0.clone(), after_secs: left });
        proof {
            assert(out.deep_view() =~= had.push(all[i as int]));
            assert(all.take(i + 1) =~= all.take(i as int).push(all[i as int]));
        }
    }
    proof {
        assert(all.take(records.len() as int) =~= all);
    }
    out
}

/// What concluding removes: every timer armed, or `None` when there is none.
pub open spec fn dropped_at_the_end(armed: Seq<TimerRecordView>) -> Option<Seq<Seq<char>>> {
    if armed.len() == 0 {
        None
    } else {
        Some(timers::selected(armed, CancelSelectorView::All))
    }
}

/// The agent said its work is done, so nothing is left for a timer to wake.
pub fn concluded(state: &TimerState) -> (r: Option<Vec<TimerId>>)
    ensures
        r.deep_view() == dropped_at_the_end(state.deep_view()),
{
    let records = state.records();
    proof {
        assert(records.deep_view().len() == records.len());
    }
    if records.len() == 0 {
        None
    } else {
        Some(state.select(&CancelSelector::All))
    }
}

/// Why a turn's end is not the agent finishing, while these timers are armed.
pub open spec fn held_by_timers(armed: Seq<TimerRecordView>) -> Option<Seq<char>> {
    if armed.len() == 0 {
        None
    } else {
        Some(text::decimal(armed.len()) + " timer(s) still armed"@)
    }
}

/// Why this turn's end is not the agent finishing, when a timer is still armed:
/// the timer is what starts the next turn.
pub fn holds(state: &TimerState) -> (r: Option<String>)
    ensures
        r.deep_view() == held_by_timers(state.deep_view()),
{
    let records = state.records();
    proof {
        assert(records.deep_view().len() == records.len());
    }
    if records.len() == 0 {
        return None;
    }
    let mut out = number(records.len() as u64);
    out.append(" timer(s) still armed");
    Some(out)
}

/// The tools this capability claims.
pub open spec fn timer_claims() -> Seq<ClaimedToolView> {
    seq![
        claims::tool_claimed(SET_TOOL@, SET_DESCRIPTION@, SET_SCHEMA@, ClaimView::TimerArm),
        claims::tool_claimed(LIST_TOOL@, LIST_DESCRIPTION@, NO_ARGUMENTS@, ClaimView::TimerList),
        claims::tool_claimed(CANCEL_TOOL@, CANCEL_DESCRIPTION@, CANCEL_SCHEMA@, ClaimView::TimerCancel),
    ]
}

impl TimersCapability {
    pub fn new() -> (r: Self)
        ensures
            r == TimersCapability,
    {
        TimersCapability
    }

    /// What a diagnostic names this capability by.
    pub fn name(&self) -> (r: &'static str)
        ensures
            r@ == "timers"@,
    {
        "timers"
    }

    /// The tools this capability claims.
    pub fn claims(&self) -> (r: Vec<ClaimedTool>)
        ensures
            r.deep_view() == timer_claims(),
    {
        let mut out: Vec<ClaimedTool> = Vec::new();
        out.push(
            ClaimedTool::new(SET_TOOL, SET_DESCRIPTION.to_owned(), SET_SCHEMA, Claim::TimerArm),
        );
        out.push(
            ClaimedTool::new(LIST_TOOL, LIST_DESCRIPTION.to_owned(), NO_ARGUMENTS, Claim::TimerList),
        );
        out.push(
            ClaimedTool::new(
                CANCEL_TOOL,
                CANCEL_DESCRIPTION.to_owned(),
                CANCEL_SCHEMA,
                Claim::TimerCancel,
            ),
        );
        proof {
            assert(out.deep_view() =~= timer_claims());
        }
        out
    }
}

impl Default for TimersCapability {
    fn default() -> (r: Self)
        ensures
            r == TimersCapability,
    {
        TimersCapability
    }
}

/// Every wake a load asks for is for a timer that is armed, and is no longer
/// than that timer has left.
pub proof fn law_a_load_moves_no_timer(armed: Seq<TimerRecordView>, now: u64, i: int)
    requires
        0 <= i < armed.len(),
    ensures
        wakes_due(armed, now).len() == armed.len(),
        wakes_due(armed, now)[i].id == armed[i].id,
        armed[i].fire_at_unix_ms >= now ==> now + wakes_due(armed, now)[i].after_secs * 1000
            <= armed[i].fire_at_unix_ms < now + wakes_due(armed, now)[i].after_secs * 1000 + 1000,
{
}

/// Concluding leaves no timer to wake a finished agent, and nothing more to
/// drop.
pub proof fn law_a_finished_agent_holds_no_timer(armed: Seq<TimerRecordView>)
    requires
        armed.len() > 0,
    ensures
        timers::without(armed, dropped_at_the_end(armed)->Some_0).len() == 0,
        held_by_timers(timers::without(armed, dropped_at_the_end(armed)->Some_0)) is None,
{
    timers::law_cancelling_all_leaves_nothing(armed);
}

/// A firing numbers on from the count the fold carries, so that replaying two
/// firings gives the two ids the live run gave.
pub proof fn law_firings_number_on(armed: Seq<TimerRecordView>, id: Seq<char>, now: u64)
    requires
        timers::timer_of(armed, id) is Some,
        timers::timer_of(armed, id)->Some_0.kind == TimerKind::Recurring,
        timers::timer_of(armed, id)->Some_0.fire_count < u64::MAX - 1,
    ensures
        ({
            let record = timers::timer_of(armed, id)->Some_0;
            let fired = firing(record, now);
            let after = timers::after_firing(armed, id, fired.next_fire_at_unix_ms);
            &&& timers::timer_of(after, id) is Some
            &&& timers::timer_of(after, id)->Some_0.fire_count == record.fire_count + 1
            &&& fired.item == (IncomingView::Timer {
                id: record.firing_id((record.fire_count + 1) as u64),
                message: record.wake_message((record.fire_count + 1) as u64),
            })
        }),
{
    let record = timers::timer_of(armed, id)->Some_0;
    let at = record.next_fire(now)->Some_0;
    timers::law_a_recurring_timer_stays_armed(armed, id, at);
    let after = timers::after_firing(armed, id, Some(at));
    let p = timers::position_of(armed, id);
    timers::lemma_position(armed, id);
    assert forall|i: int| 0 <= i < p implies (#[trigger] after[i]).id != id by {
        assert(after[i] == armed[i]);
    }
    timers::lemma_is_position(after, id, p);
}

/// A timer that is set is the one asked for: of the kind its input names, with
/// its message, due after its seconds and not yet fired. It sleeps for those
/// seconds, and the model is told its id.
pub proof fn law_an_armed_timer_is_the_one_asked_for(
    input: JsonView,
    id: Seq<char>,
    secs: u64,
    message: Seq<char>,
    now: u64,
)
    requires
        input.get("after_secs"@) == Some(JsonView::Number(NumberView::PosInt(secs))),
        secs >= 1,
        input.get("message"@) == Some(JsonView::String(message)),
        message.len() > 0,
    ensures
        ({
            let once = input.get("kind"@) == Some(JsonView::String("one_shot"@));
            let again = input.get("kind"@) == Some(JsonView::String("recurring"@));
            &&& once || again ==> (arming(input, id, now) matches ArmedView::Armed {
                record,
                wake,
                told,
            } && record.id == id && record.message == message && record.interval_secs == secs
                && record.fire_count == 0 && (once ==> record.kind == TimerKind::OneShot) && (again
                ==> record.kind == TimerKind::Recurring) && (now + secs * 1000 <= u64::MAX
                ==> record.fire_at_unix_ms == now + secs * 1000) && wake.id == id
                && wake.after_secs == secs && told == json::compact_text(
                JsonView::Object(seq![("timer_id"@, JsonView::String(id))]),
            ))
            &&& !once && !again ==> arming(input, id, now) == ArmedView::Refused(
                "set_timer.kind must be 'one_shot' or 'recurring'"@,
            )
        }),
{
    crate::timers::law_a_request_is_taken_as_it_reads(input);
    reveal_strlit("one_shot");
    reveal_strlit("recurring");
    assert("one_shot"@.len() != "recurring"@.len());
}

/// A one-shot that fires sleeps no more and has no next time; a recurring one
/// sleeps for its seconds again and fires next after them. Either wakes the
/// agent with its message, under the number of that firing.
pub proof fn law_a_fired_timer_sleeps_as_its_kind(record: TimerRecordView, now: u64)
    requires
        record.fire_count < u64::MAX,
    ensures
        ({
            let fired = firing(record, now);
            let count = text::decimal((record.fire_count + 1) as nat);
            &&& fired.id == record.id
            &&& fired.item == (IncomingView::Timer {
                id: record.id + ":"@ + count,
                message: "Timer '"@ + record.label + "' fired (#"@ + count + "): "@
                    + record.message,
            })
            &&& record.kind == TimerKind::OneShot ==> fired.wake is None
                && fired.next_fire_at_unix_ms is None
            &&& record.kind == TimerKind::Recurring ==> fired.wake == Some(
                WakeView { id: record.id, after_secs: record.interval_secs },
            ) && (now + record.interval_secs * 1000 <= u64::MAX ==> fired.next_fire_at_unix_ms
                == Some((now + record.interval_secs * 1000) as u64))
        }),
{
}

/// A cancel lets go of the timers it names and of no other, and answers with
/// their ids; one that names none is refused.
pub proof fn law_a_cancel_names_what_it_cancels(
    armed: Seq<TimerRecordView>,
    input: JsonView,
    target: Seq<char>,
    t: TimerRecordView,
)
    requires
        armed.contains(t),
    ensures
        ({
            let all = input.get("all"@) == Some(JsonView::Bool(true));
            let named = !all && input.get("id"@) == Some(JsonView::String(target));
            let r = cancelling(armed, input);
            &&& named ==> (r matches CancelledView::Cancelled { ids, told } && (ids.contains(t.id)
                <==> t.id == target) && told == json::compact_text(
                JsonView::Object(seq![("cancelled"@, timers::named_ids(ids))]),
            ))
            &&& all ==> (r matches CancelledView::Cancelled { ids, told } && ids.contains(t.id)
                && ids.len() == armed.len())
            &&& !all && input.get("id"@) is None ==> r == CancelledView::Refused(
                "cancel_timer requires 'id' or 'all': true"@,
            )
        }),
{
    let i = choose|i: int| 0 <= i < armed.len() && armed[i] == t;
    assert(crate::timers::ids_of(armed)[i] == t.id);
    crate::timers::law_a_cancel_means_what_it_names(input, target);
    let pick = |t: TimerRecordView|
        if t.id == target {
            Some(t.id)
        } else {
            None
        };
    crate::lists::lemma_filter_map_members(armed, pick);
    let ids = crate::lists::filter_map(armed, pick);
    if t.id == target {
        assert(pick(armed[i]) == Some(t.id));
        assert(ids.contains(t.id));
    }
    if ids.contains(t.id) {
        let j = choose|j: int| 0 <= j < armed.len() && pick(#[trigger] armed[j]) == Some(t.id);
        assert(armed[j].id == t.id);
    }
}

/// A finished agent drops every timer it has, and says nothing when it has
/// none; while it has some, it is held by how many.
pub proof fn law_timers_hold_an_agent_until_dropped(armed: Seq<TimerRecordView>)
    ensures
        armed.len() == 0 ==> dropped_at_the_end(armed) is None && held_by_timers(armed) is None,
        armed.len() > 0 ==> (dropped_at_the_end(armed) matches Some(ids) && ids.len()
            == armed.len() && forall|i: int|
            0 <= i < armed.len() ==> (#[trigger] ids[i]) == armed[i].id),
        armed.len() > 0 ==> held_by_timers(armed) == Some(
            text::decimal(armed.len()) + " timer(s) still armed"@,
        ),
{
}

} // verus!
