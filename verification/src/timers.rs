//! Timers: what one is, and the list an agent holds.
//!
//! Nothing here reads a clock. A timer's fire time is stamped once, when it is
//! armed, and every later question takes the time it is asked at.

use crate::json::{Json, JsonView, Number, NumberView};
use crate::lists;
use crate::text::{self, Dup, number, same};
use vstd::prelude::*;

verus! {

/// One timer's identity.
#[derive(Debug, PartialEq, Eq)]
pub struct TimerId(pub String);

impl DeepView for TimerId {
    type V = Seq<char>;

    open spec fn deep_view(&self) -> Seq<char> {
        self.0@
    }
}

impl Dup for TimerId {
    fn dup(&self) -> (out: Self) {
        TimerId(self.0.clone())
    }
}

impl Clone for TimerId {
    fn clone(&self) -> (out: Self)
        ensures
            out.deep_view() == self.deep_view(),
    {
        self.dup()
    }
}

/// Whether a timer fires once or again and again.
#[derive(Debug, Clone, Copy, PartialEq, Eq, Structural)]
pub enum TimerKind {
    OneShot,
    Recurring,
}

impl DeepView for TimerKind {
    type V = TimerKind;

    open spec fn deep_view(&self) -> TimerKind {
        *self
    }
}

impl Dup for TimerKind {
    fn dup(&self) -> (out: Self) {
        *self
    }
}

/// One armed timer.
#[derive(Debug, PartialEq, Eq)]
pub struct TimerRecord {
    pub id: TimerId,
    pub label: String,
    pub message: String,
    pub kind: TimerKind,
    pub interval_secs: u64,
    pub fire_at_unix_ms: u64,
    pub fire_count: u64,
}

/// What a [`TimerRecord`] stands for.
#[verifier::ext_equal]
pub struct TimerRecordView {
    pub id: Seq<char>,
    pub label: Seq<char>,
    pub message: Seq<char>,
    pub kind: TimerKind,
    pub interval_secs: u64,
    pub fire_at_unix_ms: u64,
    pub fire_count: u64,
}

impl DeepView for TimerRecord {
    type V = TimerRecordView;

    open spec fn deep_view(&self) -> TimerRecordView {
        TimerRecordView {
            id: self.id.deep_view(),
            label: self.label@,
            message: self.message@,
            kind: self.kind,
            interval_secs: self.interval_secs,
            fire_at_unix_ms: self.fire_at_unix_ms,
            fire_count: self.fire_count,
        }
    }
}

impl Dup for TimerRecord {
    fn dup(&self) -> (out: Self) {
        TimerRecord {
            id: self.id.dup(),
            label: self.label.clone(),
            message: self.message.clone(),
            kind: self.kind,
            interval_secs: self.interval_secs,
            fire_at_unix_ms: self.fire_at_unix_ms,
            fire_count: self.fire_count,
        }
    }
}

impl Clone for TimerRecord {
    fn clone(&self) -> (out: Self)
        ensures
            out.deep_view() == self.deep_view(),
    {
        self.dup()
    }
}

/// The sum, or the largest value there is.
pub open spec fn capped_sum(a: u64, b: int) -> u64 {
    if a + b > u64::MAX {
        u64::MAX
    } else {
        (a + b) as u64
    }
}

/// The moment `secs` seconds after `now`, in milliseconds, or the latest there
/// is.
pub open spec fn secs_after(now: u64, secs: u64) -> u64 {
    if now + secs * 1000 > u64::MAX {
        u64::MAX
    } else {
        (now + secs * 1000) as u64
    }
}

/// The moment `secs` seconds after `now`, in milliseconds.
pub fn moment_after(now: u64, secs: u64) -> (r: u64)
    ensures
        r == secs_after(now, secs),
{
    match secs.checked_mul(1000) {
        Some(ms) => now.saturating_add(ms),
        None => u64::MAX,
    }
}

impl TimerRecordView {
    /// A timer armed at `now` to fire `after_secs` later.
    pub open spec fn armed(
        id: Seq<char>,
        label: Seq<char>,
        message: Seq<char>,
        kind: TimerKind,
        after_secs: u64,
        now: u64,
    ) -> TimerRecordView {
        TimerRecordView {
            id,
            label,
            message,
            kind,
            interval_secs: after_secs,
            fire_at_unix_ms: secs_after(now, after_secs),
            fire_count: 0,
        }
    }

    /// How long it has left at `now`, in milliseconds; nothing once it is due.
    pub open spec fn remaining_ms(self, now: u64) -> u64 {
        if self.fire_at_unix_ms <= now {
            0
        } else {
            (self.fire_at_unix_ms - now) as u64
        }
    }

    /// What the agent is woken with the `count`th time this fires.
    pub open spec fn wake_message(self, count: u64) -> Seq<char> {
        "Timer '"@ + self.label + "' fired (#"@ + text::decimal(count as nat) + "): "@ + self.message
    }

    /// When this fires again after firing at `now`; a one-shot never does.
    pub open spec fn next_fire(self, now: u64) -> Option<u64> {
        match self.kind {
            TimerKind::Recurring => Some(secs_after(now, self.interval_secs)),
            TimerKind::OneShot => None,
        }
    }

    /// The identity of the `count`th firing.
    pub open spec fn firing_id(self, count: u64) -> Seq<char> {
        self.id + ":"@ + text::decimal(count as nat)
    }
}

/// The name of a kind of timer.
pub open spec fn kind_name(kind: TimerKind) -> Seq<char> {
    match kind {
        TimerKind::OneShot => "one_shot"@,
        TimerKind::Recurring => "recurring"@,
    }
}

impl TimerKind {
    /// The name of this kind of timer.
    pub fn name(&self) -> (r: &'static str)
        ensures
            r@ == kind_name(*self),
    {
        match self {
            TimerKind::OneShot => "one_shot",
            TimerKind::Recurring => "recurring",
        }
    }
}

impl TimerRecord {
    /// A timer armed at `now` to fire `after_secs` later.
    pub fn arm(
        id: TimerId,
        label: String,
        message: String,
        kind: TimerKind,
        after_secs: u64,
        now: u64,
    ) -> (r: Self)
        ensures
            r.deep_view() == TimerRecordView::armed(
                id.deep_view(),
                label@,
                message@,
                kind,
                after_secs,
                now,
            ),
    {
        TimerRecord {
            id,
            label,
            message,
            kind,
            interval_secs: after_secs,
            fire_at_unix_ms: moment_after(now, after_secs),
            fire_count: 0,
        }
    }

    /// How long it has left at `now`, in milliseconds; nothing once it is due.
    pub fn remaining_ms(&self, now: u64) -> (r: u64)
        ensures
            r == self.deep_view().remaining_ms(now),
    {
        self.fire_at_unix_ms.saturating_sub(now)
    }

    /// What the agent is woken with the `count`th time this fires.
    pub fn wake_message(&self, count: u64) -> (r: String)
        ensures
            r@ == self.deep_view().wake_message(count),
    {
        let mut out = "Timer '".to_owned();
        out.append(self.label.as_str());
        out.append("' fired (#");
        out.append(number(count).as_str());
        out.append("): ");
        out.append(self.message.as_str());
        out
    }

    /// When this fires again after firing at `now`; a one-shot never does.
    pub fn next_fire(&self, now: u64) -> (r: Option<u64>)
        ensures
            r == self.deep_view().next_fire(now),
    {
        match self.kind {
            TimerKind::Recurring => Some(moment_after(now, self.interval_secs)),
            TimerKind::OneShot => None,
        }
    }

    /// The identity of the `count`th firing: derived, never generated, so that
    /// a replay gives the firing the id the live run wrote.
    pub fn firing_id(&self, count: u64) -> (r: String)
        ensures
            r@ == self.deep_view().firing_id(count),
    {
        let mut out = self.id.0.clone();
        out.append(":");
        out.append(number(count).as_str());
        out
    }
}

/// Which timers a cancel names.
#[derive(Debug, PartialEq, Eq)]
pub enum CancelSelector {
    All,
    One(TimerId),
}

/// What a [`CancelSelector`] stands for.
pub enum CancelSelectorView {
    All,
    One(Seq<char>),
}

impl DeepView for CancelSelector {
    type V = CancelSelectorView;

    open spec fn deep_view(&self) -> CancelSelectorView {
        match self {
            CancelSelector::All => CancelSelectorView::All,
            CancelSelector::One(id) => CancelSelectorView::One(id.deep_view()),
        }
    }
}

/// The timers an agent has armed, oldest first.
///
/// The list is reached only through the questions below: nothing else adds a
/// record, removes one, or moves a fire time, which are the three things a
/// replay has to reproduce exactly.
#[derive(Debug, PartialEq, Eq)]
pub struct TimerState {
    armed: Vec<TimerRecord>,
}

impl DeepView for TimerState {
    type V = Seq<TimerRecordView>;

    closed spec fn deep_view(&self) -> Seq<TimerRecordView> {
        self.armed.deep_view()
    }
}

/// Where the first timer of this id stands, or the length when there is none.
pub open spec fn position_of(armed: Seq<TimerRecordView>, id: Seq<char>) -> int
    decreases armed.len(),
{
    if armed.len() == 0 {
        0
    } else if armed[0].id == id {
        0
    } else {
        1 + position_of(armed.drop_first(), id)
    }
}

/// The first timer of this id, if one is armed.
pub open spec fn timer_of(armed: Seq<TimerRecordView>, id: Seq<char>) -> Option<TimerRecordView> {
    let p = position_of(armed, id);
    if p < armed.len() {
        Some(armed[p])
    } else {
        None
    }
}

/// The position of an id is that of its first timer.
pub proof fn lemma_position(armed: Seq<TimerRecordView>, id: Seq<char>)
    ensures
        0 <= position_of(armed, id) <= armed.len(),
        forall|i: int| 0 <= i < position_of(armed, id) ==> (#[trigger] armed[i]).id != id,
        position_of(armed, id) < armed.len() ==> armed[position_of(armed, id)].id == id,
    decreases armed.len(),
{
    if armed.len() > 0 && armed[0].id != id {
        let rest = armed.drop_first();
        lemma_position(rest, id);
        assert forall|i: int| 0 <= i < position_of(armed, id) implies (#[trigger] armed[i]).id
            != id by {
            if i > 0 {
                assert(rest[i - 1].id != id);
            }
        }
    }
}

/// A position with nothing of this id before it is the first one.
pub proof fn lemma_is_position(armed: Seq<TimerRecordView>, id: Seq<char>, p: int)
    requires
        0 <= p <= armed.len(),
        forall|i: int| 0 <= i < p ==> (#[trigger] armed[i]).id != id,
        p < armed.len() ==> armed[p].id == id,
    ensures
        position_of(armed, id) == p,
{
    lemma_position(armed, id);
    let q = position_of(armed, id);
    if q < p {
        assert(armed[q].id != id);
    } else if p < q {
        assert(armed[p].id != id);
    }
}

/// The timers left when these are removed.
pub open spec fn without(armed: Seq<TimerRecordView>, ids: Seq<Seq<char>>) -> Seq<
    TimerRecordView,
> {
    lists::filter_map(
        armed,
        |t: TimerRecordView|
            if ids.contains(t.id) {
                None
            } else {
                Some(t)
            },
    )
}

/// The timers left after one fired: a recurring one moves to its next fire
/// time and counts one firing more, a one-shot is gone.
pub open spec fn after_firing(
    armed: Seq<TimerRecordView>,
    id: Seq<char>,
    next: Option<u64>,
) -> Seq<TimerRecordView> {
    match next {
        Some(at) => {
            let p = position_of(armed, id);
            if p < armed.len() {
                armed.update(
                    p,
                    TimerRecordView {
                        fire_at_unix_ms: at,
                        fire_count: capped_sum(armed[p].fire_count, 1),
                        ..armed[p]
                    },
                )
            } else {
                armed
            }
        },
        None => without(armed, seq![id]),
    }
}

/// The ids of these timers.
pub open spec fn ids_of(armed: Seq<TimerRecordView>) -> Seq<Seq<char>> {
    armed.map_values(|t: TimerRecordView| t.id)
}

/// The ids a selector names, in list order.
pub open spec fn selected(armed: Seq<TimerRecordView>, selector: CancelSelectorView) -> Seq<
    Seq<char>,
> {
    match selector {
        CancelSelectorView::All => ids_of(armed),
        CancelSelectorView::One(id) => lists::filter_map(
            armed,
            |t: TimerRecordView|
                if t.id == id {
                    Some(t.id)
                } else {
                    None
                },
        ),
    }
}

/// The line an armed timer is carried across a compaction by.
pub open spec fn carried_line(t: TimerRecordView) -> Seq<char> {
    "\n- "@ + t.id + " ("@ + t.label + ") fires at "@ + text::decimal(t.fire_at_unix_ms as nat) + "ms: "@
        + (if t.message.len() == 0 {
        "(no message)"@
    } else {
        t.message
    })
}

/// What an agent is told of its armed timers.
pub open spec fn carried_block(armed: Seq<TimerRecordView>) -> Seq<char>
    decreases armed.len(),
{
    if armed.len() == 0 {
        CARRIED_HEADER@
    } else {
        carried_block(armed.drop_last()) + carried_line(armed.last())
    }
}

/// What is written above the armed timers an agent carries across a compaction.
pub const CARRIED_HEADER: &'static str = "Armed timers:";

impl TimerState {
    /// No timers.
    pub fn new() -> (r: Self)
        ensures
            r.deep_view() == Seq::<TimerRecordView>::empty(),
    {
        let r = TimerState { armed: Vec::new() };
        proof {
            assert(r.deep_view() =~= seq![]);
        }
        r
    }

    /// The timers still armed, oldest first.
    pub fn records(&self) -> (r: &Vec<TimerRecord>)
        ensures
            r.deep_view() == self.deep_view(),
    {
        &self.armed
    }

    /// A timer was armed, with its fire time already stamped.
    pub fn arm(&mut self, record: TimerRecord)
        ensures
            final(self).deep_view() == old(self).deep_view().push(record.deep_view()),
    {
        let ghost had = self.deep_view();
        let ghost added = record.deep_view();
        self.armed.push(record);
        proof {
            assert(self.deep_view() =~= had.push(added));
        }
    }

    /// These timers were removed.
    pub fn cancel(&mut self, ids: &[TimerId])
        ensures
            final(self).deep_view() == without(old(self).deep_view(), ids.deep_view()),
    {
        let ghost all = self.deep_view();
        let ghost gone = ids.deep_view();
        let ghost keep = |t: TimerRecordView|
            if gone.contains(t.id) {
                None
            } else {
                Some(t)
            };
        let mut kept: Vec<TimerRecord> = Vec::new();
        for i in 0..self.armed.len()
            invariant
                all == self.deep_view(),
                gone == ids.deep_view(),
                keep == (|t: TimerRecordView|
                    if gone.contains(t.id) {
                        None
                    } else {
                        Some(t)
                    }),
                kept.deep_view() == lists::filter_map(all.take(i as int), keep),
        {
            let ghost had = kept.deep_view();
            proof {
                lists::lemma_filter_map_step(all, keep, i as int);
                assert(all[i as int] == self.armed@[i as int].deep_view());
            }
            if !names(ids, &self.armed[i].id) {
                kept.push(self.armed[i].dup());
                proof {
                    assert(kept.deep_view() =~= had.push(all[i as int]));
                }
            }
        }
        proof {
            assert(all.take(self.armed.len() as int) =~= all);
        }
        self.armed = kept;
    }

    /// Where the first timer of this id stands, or the length.
    fn position(&self, id: &TimerId) -> (p: usize)
        ensures
            p == position_of(self.deep_view(), id.deep_view()),
            p <= self.armed@.len(),
    {
        let mut p: usize = 0;
        while p < self.armed.len() && self.armed[p].id.0 != id.0
            invariant
                p <= self.armed.len(),
                forall|i: int|
                    0 <= i < p ==> (#[trigger] self.deep_view()[i]).id != id.deep_view(),
            decreases self.armed.len() - p,
        {
            proof {
                assert(self.deep_view()[p as int] == self.armed@[p as int].deep_view());
            }
            p = p + 1;
        }
        proof {
            if p < self.armed.len() {
                assert(self.deep_view()[p as int] == self.armed@[p as int].deep_view());
            }
            lemma_is_position(self.deep_view(), id.deep_view(), p as int);
        }
        p
    }

    /// A timer fired. `next` re-arms a recurring one at the time the decision
    /// computed; `None` removes a one-shot.
    pub fn fired(&mut self, id: &TimerId, next: Option<u64>)
        ensures
            final(self).deep_view() == after_firing(old(self).deep_view(), id.deep_view(), next),
    {
        match next {
            Some(at) => {
                let p = self.position(id);
                if p < self.armed.len() {
                    let ghost all = self.deep_view();
                    let mut record = self.armed[p].dup();
                    record.fire_at_unix_ms = at;
                    record.fire_count = record.fire_count.saturating_add(1);
                    let ghost moved = record.deep_view();
                    self.armed.set(p, record);
                    proof {
                        assert(all[p as int] == old(self).armed@[p as int].deep_view());
                        assert(self.deep_view() =~= all.update(p as int, moved));
                    }
                }
            },
            None => {
                let mut ids: Vec<TimerId> = Vec::new();
                ids.push(id.dup());
                proof {
                    assert(ids.deep_view() =~= seq![id.deep_view()]);
                }
                self.cancel(&ids);
            },
        }
    }

    /// The first timer of this id, if one is armed.
    pub fn find(&self, id: &TimerId) -> (r: Option<&TimerRecord>)
        ensures
            match r {
                Some(t) => timer_of(self.deep_view(), id.deep_view()) == Some(t.deep_view()),
                None => timer_of(self.deep_view(), id.deep_view()) is None,
            },
    {
        let p = self.position(id);
        if p < self.armed.len() {
            proof {
                assert(self.deep_view()[p as int] == self.armed@[p as int].deep_view());
            }
            Some(&self.armed[p])
        } else {
            None
        }
    }

    /// The ids of the armed timers, in list order.
    pub fn all_ids(&self) -> (r: Vec<TimerId>)
        ensures
            r.deep_view() == ids_of(self.deep_view()),
    {
        let ghost ids = ids_of(self.deep_view());
        let mut out: Vec<TimerId> = Vec::new();
        for i in 0..self.armed.len()
            invariant
                ids == ids_of(self.deep_view()),
                out.deep_view() == ids.take(i as int),
        {
            let ghost had = out.deep_view();
            out.push(self.armed[i].id.dup());
            proof {
                assert(self.deep_view()[i as int] == self.armed@[i as int].deep_view());
                assert(out.deep_view() =~= had.push(ids[i as int]));
                assert(ids.take(i + 1) =~= ids.take(i as int).push(ids[i as int]));
            }
        }
        proof {
            assert(ids.take(self.armed.len() as int) =~= ids);
        }
        out
    }

    /// Which armed timers a selector names, in list order.
    pub fn select(&self, selector: &CancelSelector) -> (r: Vec<TimerId>)
        ensures
            r.deep_view() == selected(self.deep_view(), selector.deep_view()),
    {
        match selector {
            CancelSelector::All => self.all_ids(),
            CancelSelector::One(id) => {
                let ghost all = self.deep_view();
                let ghost wanted = id.deep_view();
                let ghost pick = |t: TimerRecordView|
                    if t.id == wanted {
                        Some(t.id)
                    } else {
                        None
                    };
                let mut out: Vec<TimerId> = Vec::new();
                for i in 0..self.armed.len()
                    invariant
                        all == self.deep_view(),
                        wanted == id.deep_view(),
                        pick == (|t: TimerRecordView|
                            if t.id == wanted {
                                Some(t.id)
                            } else {
                                None
                            }),
                        out.deep_view() == lists::filter_map(all.take(i as int), pick),
                {
                    let ghost had = out.deep_view();
                    proof {
                        lists::lemma_filter_map_step(all, pick, i as int);
                        assert(all[i as int] == self.armed@[i as int].deep_view());
                    }
                    if self.armed[i].id.0 == id.0 {
                        out.push(self.armed[i].id.dup());
                        proof {
                            assert(out.deep_view() =~= had.push(wanted));
                        }
                    }
                }
                proof {
                    assert(all.take(self.armed.len() as int) =~= all);
                }
                out
            },
        }
    }

    /// What an agent is told of its armed timers across a compaction; nothing
    /// when none is armed.
    pub fn carried_state(&self) -> (r: Option<String>)
        ensures
            r.deep_view() == (if self.deep_view().len() == 0 {
                None
            } else {
                Some(carried_block(self.deep_view()))
            }),
    {
        if self.armed.len() == 0 {
            return None;
        }
        let ghost all = self.deep_view();
        let mut block = CARRIED_HEADER.to_owned();
        for i in 0..self.armed.len()
            invariant
                all == self.deep_view(),
                block@ == carried_block(all.take(i as int)),
        {
            let t = &self.armed[i];
            proof {
                assert(all[i as int] == self.armed@[i as int].deep_view());
                assert(all.take(i + 1).drop_last() =~= all.take(i as int));
            }
            let mut line = "\n- ".to_owned();
            line.append(t.id.0.as_str());
            line.append(" (");
            line.append(t.label.as_str());
            line.append(") fires at ");
            line.append(number(t.fire_at_unix_ms).as_str());
            line.append("ms: ");
            if t.message.as_str().is_empty() {
                line.append("(no message)");
            } else {
                line.append(t.message.as_str());
            }
            block.append(line.as_str());
        }
        proof {
            assert(all.take(self.armed.len() as int) =~= all);
        }
        Some(block)
    }
}

/// Whether `id` is one of `ids`.
fn names(ids: &[TimerId], id: &TimerId) -> (r: bool)
    ensures
        r == ids.deep_view().contains(id.deep_view()),
{
    for i in 0..ids.len()
        invariant
            forall|j: int| 0 <= j < i ==> ids.deep_view()[j] != id.deep_view(),
    {
        if ids[i].0 == id.0 {
            proof {
                assert(ids.deep_view()[i as int] == id.deep_view());
            }
            return true;
        }
    }
    false
}

impl Dup for TimerState {
    fn dup(&self) -> (out: Self) {
        TimerState { armed: self.armed.dup() }
    }
}

impl Clone for TimerState {
    fn clone(&self) -> (out: Self)
        ensures
            out.deep_view() == self.deep_view(),
    {
        self.dup()
    }
}

impl Default for TimerState {
    fn default() -> (r: Self)
        ensures
            r.deep_view() == Seq::<TimerRecordView>::empty(),
    {
        TimerState::new()
    }
}

/// What a call to `set_timer` asks for.
#[derive(Debug, PartialEq, Eq)]
pub struct TimerRequest {
    pub kind: TimerKind,
    pub after_secs: u64,
    pub label: String,
    pub message: String,
}

/// What a [`TimerRequest`] stands for.
#[verifier::ext_equal]
pub struct TimerRequestView {
    pub kind: TimerKind,
    pub after_secs: u64,
    pub label: Seq<char>,
    pub message: Seq<char>,
}

impl DeepView for TimerRequest {
    type V = TimerRequestView;

    open spec fn deep_view(&self) -> TimerRequestView {
        TimerRequestView {
            kind: self.kind.deep_view(),
            after_secs: self.after_secs.deep_view(),
            label: self.label.deep_view(),
            message: self.message.deep_view(),
        }
    }
}

impl Dup for TimerRequest {
    fn dup(&self) -> (out: Self) {
        TimerRequest {
            kind: self.kind.dup(),
            after_secs: self.after_secs.dup(),
            label: self.label.dup(),
            message: self.message.dup(),
        }
    }
}

impl Clone for TimerRequest {
    fn clone(&self) -> (out: Self)
        ensures
            out.deep_view() == self.deep_view(),
    {
        self.dup()
    }
}

/// What a call to `set_timer` asks for, or why it cannot be armed.
pub open spec fn requested(input: JsonView) -> Result<TimerRequestView, Seq<char>> {
    let kind = match input.str_at("kind"@) {
        Some(name) => if name == "one_shot"@ {
            Some(TimerKind::OneShot)
        } else if name == "recurring"@ {
            Some(TimerKind::Recurring)
        } else {
            None
        },
        None => None,
    };
    match kind {
        None => Err("set_timer.kind must be 'one_shot' or 'recurring'"@),
        Some(kind) => match input.u64_at("after_secs"@) {
            None => Err("set_timer.after_secs must be an integer >= 1"@),
            Some(after_secs) => if after_secs < 1 {
                Err("set_timer.after_secs must be an integer >= 1"@)
            } else if input.str_or_empty("message"@).len() == 0 {
                Err("set_timer.message must be a non-empty string"@)
            } else {
                Ok(
                    TimerRequestView {
                        kind,
                        after_secs,
                        label: input.str_or_empty("label"@),
                        message: input.str_or_empty("message"@),
                    },
                )
            },
        },
    }
}

impl TimerRequest {
    /// What a call to `set_timer` asks for, or why it cannot be armed.
    pub fn from_input(input: &Json) -> (r: Result<Self, String>)
        ensures
            match r {
                Ok(request) => requested(input.deep_view()) == Ok::<TimerRequestView, Seq<char>>(
                    request.deep_view(),
                ),
                Err(reason) => requested(input.deep_view()) == Err::<TimerRequestView, Seq<char>>(
                    reason@,
                ),
            },
    {
        let kind = match input.str_at("kind") {
            Some(name) => if same(name, "one_shot") {
                Some(TimerKind::OneShot)
            } else if same(name, "recurring") {
                Some(TimerKind::Recurring)
            } else {
                None
            },
            None => None,
        };
        let kind = match kind {
            Some(kind) => kind,
            None => {
                return Err("set_timer.kind must be 'one_shot' or 'recurring'".to_owned());
            },
        };
        let after_secs: u64 = match input.u64_at("after_secs") {
            Some(n) => n,
            None => 0,
        };
        if after_secs < 1 {
            return Err("set_timer.after_secs must be an integer >= 1".to_owned());
        }
        let message = input.str_or_empty("message");
        if message.as_str().is_empty() {
            return Err("set_timer.message must be a non-empty string".to_owned());
        }
        Ok(TimerRequest { kind, after_secs, label: input.str_or_empty("label"), message })
    }
}

/// Which timers a call to `cancel_timer` names, or why it names none.
pub open spec fn selector_of(input: JsonView) -> Result<CancelSelectorView, Seq<char>> {
    if input.bool_at("all"@) == Some(true) {
        Ok(CancelSelectorView::All)
    } else {
        match input.str_at("id"@) {
            Some(id) => Ok(CancelSelectorView::One(id)),
            None => Err("cancel_timer requires 'id' or 'all': true"@),
        }
    }
}

impl CancelSelector {
    /// Which timers a call to `cancel_timer` names, or why it names none.
    pub fn from_input(input: &Json) -> (r: Result<Self, String>)
        ensures
            match r {
                Ok(selector) => selector_of(input.deep_view()) == Ok::<
                    CancelSelectorView,
                    Seq<char>,
                >(selector.deep_view()),
                Err(reason) => selector_of(input.deep_view()) == Err::<
                    CancelSelectorView,
                    Seq<char>,
                >(reason@),
            },
    {
        if let Some(true) = input.bool_at("all") {
            return Ok(CancelSelector::All);
        }
        match input.str_at("id") {
            Some(id) => Ok(CancelSelector::One(TimerId(id.to_owned()))),
            None => Err("cancel_timer requires 'id' or 'all': true".to_owned()),
        }
    }
}

impl TimerRecordView {
    /// A timer as the model reads it back at `now`.
    pub open spec fn listed(self, now: u64) -> JsonView {
        JsonView::Object(
            seq![
                ("id"@, JsonView::String(self.id)),
                ("label"@, JsonView::String(self.label)),
                ("message"@, JsonView::String(self.message)),
                ("kind"@, JsonView::String(kind_name(self.kind))),
                (
                    "fires_in_secs"@,
                    JsonView::Number(NumberView::PosInt((self.remaining_ms(now) / 1000) as u64)),
                ),
            ],
        )
    }
}

impl TimerRecord {
    /// A timer as the model reads it back at `now`: the delay it has left, not
    /// the interval it was armed with.
    pub fn view(&self, now: u64) -> (r: Json)
        ensures
            r.deep_view() == self.deep_view().listed(now),
    {
        let left: u64 = self.remaining_ms(now) / 1000;
        let id = Json::String(self.id.0.clone());
        let label = Json::String(self.label.clone());
        let message = Json::String(self.message.clone());
        let kind = Json::String(self.kind.name().to_owned());
        let fires = Json::Number(Number::PosInt(left));
        proof {
            assert(id.model() == JsonView::String(self.id.0@));
            assert(label.model() == JsonView::String(self.label@));
            assert(message.model() == JsonView::String(self.message@));
            assert(kind.model() == JsonView::String(kind_name(self.kind)));
            assert(fires.model() == JsonView::Number(NumberView::PosInt(left)));
        }
        let mut members: Vec<(String, Json)> = Vec::new();
        members.push(("id".to_owned(), id));
        members.push(("label".to_owned(), label));
        members.push(("message".to_owned(), message));
        members.push(("kind".to_owned(), kind));
        members.push(("fires_in_secs".to_owned(), fires));
        let r = Json::Object(members);
        proof {
            assert(r.deep_view()->Object_0 =~= self.deep_view().listed(now)->Object_0);
        }
        r
    }
}

/// Every timer as the model reads it back at `now`.
pub open spec fn listing(armed: Seq<TimerRecordView>, now: u64) -> JsonView {
    JsonView::Array(armed.map_values(|t: TimerRecordView| t.listed(now)))
}

impl TimerState {
    /// Every timer as the model reads it back at `now`, oldest first.
    pub fn listed(&self, now: u64) -> (r: Json)
        ensures
            r.deep_view() == listing(self.deep_view(), now),
    {
        let ghost all = self.deep_view();
        let mut items: Vec<Json> = Vec::new();
        for i in 0..self.armed.len()
            invariant
                all == self.deep_view(),
                items.len() == i,
                forall|j: int| 0 <= j < i ==> (#[trigger] items@[j]).model() == all[j].listed(now),
        {
            proof {
                assert(all[i as int] == self.armed@[i as int].deep_view());
            }
            items.push(self.armed[i].view(now));
        }
        let r = Json::Array(items);
        proof {
            assert(r.deep_view()->Array_0 =~= listing(all, now)->Array_0);
        }
        r
    }
}

/// Ids, as the JSON list a cancel answers with.
pub open spec fn named_ids(ids: Seq<Seq<char>>) -> JsonView {
    JsonView::Array(ids.map_values(|id: Seq<char>| JsonView::String(id)))
}

/// An object with one member.
pub open spec fn one_member(name: Seq<char>, value: JsonView) -> JsonView {
    JsonView::Object(seq![(name, value)])
}

/// An object with one member.
pub fn single(name: &str, value: Json) -> (r: Json)
    ensures
        r.deep_view() == one_member(name@, value.deep_view()),
{
    let ghost inner = value.deep_view();
    let mut members: Vec<(String, Json)> = Vec::new();
    members.push((name.to_owned(), value));
    let r = Json::Object(members);
    proof {
        assert(r.deep_view()->Object_0 =~= seq![(name@, inner)]);
    }
    r
}

/// Ids, as the JSON list a cancel answers with.
pub fn ids_json(ids: &[TimerId]) -> (r: Json)
    ensures
        r.deep_view() == named_ids(ids.deep_view()),
{
    let mut items: Vec<Json> = Vec::new();
    for i in 0..ids.len()
        invariant
            items.len() == i,
            forall|j: int|
                0 <= j < i ==> (#[trigger] items@[j]).model() == JsonView::String(
                    ids.deep_view()[j],
                ),
    {
        proof {
            assert(ids.deep_view()[i as int] == ids@[i as int].deep_view());
        }
        items.push(Json::String(ids[i].0.clone()));
    }
    let r = Json::Array(items);
    proof {
        assert(r.deep_view()->Array_0 =~= named_ids(ids.deep_view())->Array_0);
    }
    r
}

/// A cancelled timer is gone: no timer of a removed id is left, and every
/// other one is.
pub proof fn law_cancelled_timers_are_gone(armed: Seq<TimerRecordView>, ids: Seq<Seq<char>>)
    ensures
        forall|t: TimerRecordView| #[trigger]
            without(armed, ids).contains(t) <==> armed.contains(t) && !ids.contains(t.id),
{
    let keep = |t: TimerRecordView|
        if ids.contains(t.id) {
            None
        } else {
            Some(t)
        };
    crate::lists::lemma_filter_map_members(armed, keep);
    assert(without(armed, ids) == lists::filter_map(armed, keep));
    assert forall|t: TimerRecordView| #[trigger] without(armed, ids).contains(t) <==> armed.contains(
        t,
    ) && !ids.contains(t.id) by {
        if armed.contains(t) && !ids.contains(t.id) {
            let i = choose|i: int| 0 <= i < armed.len() && armed[i] == t;
            assert(keep(armed[i]) == Some(t));
        }
        if without(armed, ids).contains(t) {
            let i = choose|i: int| 0 <= i < armed.len() && keep(#[trigger] armed[i]) == Some(t);
            assert(armed[i] == t);
        }
    }
}

/// Cancelling everything leaves nothing armed.
pub proof fn law_cancelling_all_leaves_nothing(armed: Seq<TimerRecordView>)
    ensures
        without(armed, selected(armed, CancelSelectorView::All)).len() == 0,
{
    let ids = ids_of(armed);
    let left = without(armed, ids);
    law_cancelled_timers_are_gone(armed, ids);
    if left.len() > 0 {
        assert(left.contains(left[0]));
        let i = choose|i: int| 0 <= i < armed.len() && armed[i] == left[0];
        assert(ids[i] == left[0].id);
    }
}

/// A sleep that outlives its timer reaches nothing: once a one-shot has fired,
/// or an id is cancelled, no timer answers to it.
pub proof fn law_a_stale_sleep_finds_no_timer(armed: Seq<TimerRecordView>, ids: Seq<Seq<char>>, id: Seq<char>)
    requires
        ids.contains(id),
    ensures
        timer_of(without(armed, ids), id) is None,
        timer_of(after_firing(armed, id, None), id) is None,
{
    law_cancelled_timers_are_gone(armed, ids);
    law_cancelled_timers_are_gone(armed, seq![id]);
    assert(seq![id].contains(id)) by {
        assert(seq![id][0] == id);
    }
    let a = without(armed, ids);
    let b = without(armed, seq![id]);
    lemma_position(a, id);
    lemma_position(b, id);
    if position_of(a, id) < a.len() {
        assert(a.contains(a[position_of(a, id)]));
    }
    if position_of(b, id) < b.len() {
        assert(b.contains(b[position_of(b, id)]));
    }
}

/// A recurring timer stays armed when it fires: same place, same id, its next
/// fire time, and one firing more; nothing else moves.
pub proof fn law_a_recurring_timer_stays_armed(
    armed: Seq<TimerRecordView>,
    id: Seq<char>,
    at: u64,
)
    requires
        timer_of(armed, id) is Some,
    ensures
        ({
            let next = after_firing(armed, id, Some(at));
            let p = position_of(armed, id);
            &&& next.len() == armed.len()
            &&& next[p].id == id
            &&& next[p].fire_at_unix_ms == at
            &&& armed[p].fire_count < u64::MAX ==> next[p].fire_count == armed[p].fire_count + 1
            &&& forall|i: int| 0 <= i < armed.len() && i != p ==> next[i] == armed[i]
        }),
{
    lemma_position(armed, id);
}

/// No two firings of a timer share an id.
pub proof fn law_firings_have_distinct_ids(t: TimerRecordView, a: u64, b: u64)
    requires
        t.firing_id(a) == t.firing_id(b),
    ensures
        a == b,
{
    let head = t.id + ":"@;
    assert(t.firing_id(a).skip(head.len() as int) =~= text::decimal(a as nat));
    assert(t.firing_id(b).skip(head.len() as int) =~= text::decimal(b as nat));
    crate::text::law_decimal_is_injective(a as nat, b as nat);
}

/// Timers are let go one by one, in order: one stays as it is unless its id is
/// among those let go.
pub proof fn law_timers_are_let_go_one_by_one(
    a: Seq<TimerRecordView>,
    b: Seq<TimerRecordView>,
    t: TimerRecordView,
    ids: Seq<Seq<char>>,
)
    ensures
        without(a + b, ids) == without(a, ids) + without(b, ids),
        without(seq![t], ids) == (if ids.contains(t.id) {
            seq![]
        } else {
            seq![t]
        }),
{
    let keep = |t: TimerRecordView|
        if ids.contains(t.id) {
            None
        } else {
            Some(t)
        };
    crate::lists::law_a_list_is_filtered_item_by_item(a, b, t, keep);
}

/// A timer that is let go leaves every other where it was.
pub proof fn lemma_letting_the_last_go(armed: Seq<TimerRecordView>, t: TimerRecordView)
    requires
        forall|i: int| 0 <= i < armed.len() ==> (#[trigger] armed[i]).id != t.id,
    ensures
        without(armed.push(t), seq![t.id]) == armed,
    decreases armed.len(),
{
    assert(armed.push(t) =~= armed + seq![t]);
    law_timers_are_let_go_one_by_one(armed, seq![t], t, seq![t.id]);
    assert(seq![t.id].contains(seq![t.id][0]));
    lemma_nothing_let_go(armed, t.id);
}

/// Letting go of an id that no timer has changes nothing.
pub proof fn lemma_nothing_let_go(armed: Seq<TimerRecordView>, id: Seq<char>)
    requires
        forall|i: int| 0 <= i < armed.len() ==> (#[trigger] armed[i]).id != id,
    ensures
        without(armed, seq![id]) == armed,
    decreases armed.len(),
{
    if armed.len() > 0 {
        let rest = armed.drop_last();
        assert forall|i: int| 0 <= i < rest.len() implies (#[trigger] rest[i]).id != id by {
            assert(rest[i] == armed[i]);
        }
        lemma_nothing_let_go(rest, id);
        assert(armed[armed.len() - 1].id != id);
        assert(!seq![id].contains(armed.last().id));
        assert(rest.push(armed.last()) =~= armed);
    }
}

/// A request to set a timer is taken exactly when it names one of the two
/// kinds, at least one second and a message; it is then taken as it reads.
pub proof fn law_a_request_is_taken_as_it_reads(input: JsonView)
    ensures
        requested(input) is Ok <==> (input.get("kind"@) == Some(JsonView::String("one_shot"@))
            || input.get("kind"@) == Some(JsonView::String("recurring"@))) && (input.get(
            "after_secs"@,
        ) matches Some(JsonView::Number(NumberView::PosInt(n))) && n >= 1) && (input.get(
            "message"@,
        ) matches Some(JsonView::String(text)) && text.len() > 0),
        requested(input) matches Ok(request) ==> {
            &&& request.kind == TimerKind::OneShot <==> input.get("kind"@) == Some(
                JsonView::String("one_shot"@),
            )
            &&& request.kind == TimerKind::Recurring <==> input.get("kind"@) == Some(
                JsonView::String("recurring"@),
            )
            &&& input.get("after_secs"@) == Some(
                JsonView::Number(NumberView::PosInt(request.after_secs)),
            )
            &&& input.get("message"@) == Some(JsonView::String(request.message))
            &&& input.get("label"@) matches Some(JsonView::String(text)) ==> request.label == text
        },
        input.get("kind"@) != Some(JsonView::String("one_shot"@)) && input.get("kind"@) != Some(
            JsonView::String("recurring"@),
        ) ==> requested(input) == Err::<TimerRequestView, Seq<char>>(
            "set_timer.kind must be 'one_shot' or 'recurring'"@,
        ),
{
    reveal_strlit("one_shot");
    reveal_strlit("recurring");
    assert("one_shot"@.len() != "recurring"@.len());
}

/// A cancel that says `all` means every timer, whatever else it names; another
/// means the one it names, and one that names none is refused.
pub proof fn law_a_cancel_means_what_it_names(input: JsonView, id: Seq<char>)
    ensures
        input.get("all"@) == Some(JsonView::Bool(true)) ==> selector_of(input) == Ok::<
            CancelSelectorView,
            Seq<char>,
        >(CancelSelectorView::All),
        input.get("all"@) != Some(JsonView::Bool(true)) && input.get("id"@) == Some(
            JsonView::String(id),
        ) ==> selector_of(input) == Ok::<CancelSelectorView, Seq<char>>(
            CancelSelectorView::One(id),
        ),
        input.get("all"@) != Some(JsonView::Bool(true)) && input.get("id"@) is None ==> selector_of(
            input,
        ) == Err::<CancelSelectorView, Seq<char>>("cancel_timer requires 'id' or 'all': true"@),
{
}

/// A timer is listed under its own fields, with the whole seconds it has left.
pub proof fn law_a_timer_is_listed_as_it_is(armed: Seq<TimerRecordView>, now: u64, i: int)
    requires
        0 <= i < armed.len(),
    ensures
        listing(armed, now) matches JsonView::Array(items) && items.len() == armed.len() && ({
            let t = armed[i];
            &&& items[i].get("id"@) == Some(JsonView::String(t.id))
            &&& items[i].get("label"@) == Some(JsonView::String(t.label))
            &&& items[i].get("message"@) == Some(JsonView::String(t.message))
            &&& t.kind == TimerKind::OneShot ==> items[i].get("kind"@) == Some(
                JsonView::String("one_shot"@),
            )
            &&& t.kind == TimerKind::Recurring ==> items[i].get("kind"@) == Some(
                JsonView::String("recurring"@),
            )
            &&& items[i].get("fires_in_secs"@) matches Some(
                JsonView::Number(NumberView::PosInt(secs)),
            ) && (t.fire_at_unix_ms <= now ==> secs == 0) && (t.fire_at_unix_ms > now ==> secs
                * 1000 <= t.fire_at_unix_ms - now < secs * 1000 + 1000)
        }),
{
    reveal_strlit("id");
    reveal_strlit("label");
    reveal_strlit("message");
    reveal_strlit("kind");
    reveal_strlit("fires_in_secs");
    assert("id"@.len() == 2 && "label"@.len() == 5 && "message"@.len() == 7 && "kind"@.len() == 4
        && "fires_in_secs"@.len() == 13);
    let members = seq![
        ("id"@, JsonView::String(armed[i].id)),
        ("label"@, JsonView::String(armed[i].label)),
        ("message"@, JsonView::String(armed[i].message)),
        ("kind"@, JsonView::String(kind_name(armed[i].kind))),
        (
            "fires_in_secs"@,
            JsonView::Number(NumberView::PosInt((armed[i].remaining_ms(now) / 1000) as u64)),
        ),
    ];
    assert(armed[i].listed(now) == JsonView::Object(members));
    crate::json::law_a_name_gives_its_first_member(members, "id"@, 0);
    crate::json::law_a_name_gives_its_first_member(members, "label"@, 1);
    crate::json::law_a_name_gives_its_first_member(members, "message"@, 2);
    crate::json::law_a_name_gives_its_first_member(members, "kind"@, 3);
    crate::json::law_a_name_gives_its_first_member(members, "fires_in_secs"@, 4);
}

/// The note of armed timers grows by one line for each, which names its id,
/// its label, when it fires and what it says.
pub proof fn law_a_note_names_every_timer(armed: Seq<TimerRecordView>, t: TimerRecordView)
    ensures
        carried_block(Seq::empty()) == "Armed timers:"@,
        t.message.len() > 0 ==> carried_block(armed.push(t)) == carried_block(armed) + ("\n- "@
            + t.id + " ("@ + t.label + ") fires at "@ + text::decimal(t.fire_at_unix_ms as nat) + "ms: "@
            + t.message),
        t.message.len() == 0 ==> carried_block(armed.push(t)) == carried_block(armed) + ("\n- "@
            + t.id + " ("@ + t.label + ") fires at "@ + text::decimal(t.fire_at_unix_ms as nat) + "ms: "@
            + "(no message)"@),
{
    assert(armed.push(t).drop_last() =~= armed);
}

} // verus!
