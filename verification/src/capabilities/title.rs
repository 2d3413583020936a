//! `set_session_title`: the agent naming the conversation it is in.
//!
//! A session's name is the session's own, so the tool is answered in two
//! halves: the call decides and asks, and the session's reply is what finally
//! answers the model, possibly on a later process. That is why the name in
//! flight is folded from events rather than held anywhere else.

use crate::capabilities::{
    PromptSection, PromptSectionView, SessionReply, SessionReplyView, SessionRequest,
    SessionRequestView,
};
use crate::capabilities::claims::{self, Claim, ClaimView, ClaimedTool, ClaimedToolView};
use crate::ids::RunnerId;
use crate::sorted::{self, TextMap};
use crate::text::{self, Dup, chars_of, number, trim};
use vstd::prelude::*;

verus! {

/// Appended to a branched conversation's system prompt.
pub const FORK_PROMPT_SUFFIX: &'static str = "# Forked conversation\nYou are a fork: a conversation branched from another one in this session, carrying its history up to the branch point. You share one workspace with it — what you change on disk is what it sees. Name yourself with set_session_title as soon as the new direction is clear; that title is how a person tells this conversation from the one it came from.";

/// What any other conversation is told of its name.
pub const TITLE_PROMPT: &'static str = "Name this conversation with `set_session_title` once you know what it is about.";

/// The tool this capability answers for.
pub const TOOL: &'static str = "set_session_title";

/// What `set_session_title` takes.
pub const TITLE_SCHEMA: &'static str = "{\"properties\":{\"title\":{\"description\":\"A concise single-line session title, at most 60 characters. The latest successful call renames the session.\",\"maxLength\":60,\"minLength\":1,\"type\":\"string\"}},\"required\":[\"title\"],\"type\":\"object\"}";

/// What the model is told `set_session_title` does.
pub const TITLE_DESCRIPTION: &'static str = "Rename this session at any point with a concise, specific, single-line title. The latest successful call wins.";

/// The longest a session's title may be, in characters.
pub const SESSION_TITLE_MAX_CHARS: usize = 60;

/// Why a title was refused.
#[derive(Debug, Clone, Copy, PartialEq, Eq, Structural)]
pub enum SessionTitleError {
    Empty,
    Multiline,
    TooLong { max: usize },
}

/// The refusal in words.
pub open spec fn refusal_of_title(error: SessionTitleError) -> Seq<char> {
    match error {
        SessionTitleError::Empty => "session title must not be empty"@,
        SessionTitleError::Multiline => "session title must be a single line"@,
        SessionTitleError::TooLong { max } => "session title must be at most "@ + text::decimal(
            max as nat,
        ) + " characters"@,
    }
}

impl SessionTitleError {
    /// The refusal in words.
    pub fn text(&self) -> (r: String)
        ensures
            r@ == refusal_of_title(*self),
    {
        match self {
            SessionTitleError::Empty => "session title must not be empty".to_owned(),
            SessionTitleError::Multiline => "session title must be a single line".to_owned(),
            SessionTitleError::TooLong { max } => {
                let mut out = "session title must be at most ".to_owned();
                out.append(number(*max as u64).as_str());
                out.append(" characters");
                out
            },
        }
    }
}

/// Whether a text is more than one line.
pub open spec fn breaks_a_line(s: Seq<char>) -> bool {
    s.contains('\n') || s.contains('\r')
}

/// The name a title gives, or why it gives none.
pub open spec fn normalized(input: Seq<char>) -> Result<Seq<char>, SessionTitleError> {
    let title = text::trimmed(input);
    if title.len() == 0 {
        Err(SessionTitleError::Empty)
    } else if breaks_a_line(title) {
        Err(SessionTitleError::Multiline)
    } else if title.len() > SESSION_TITLE_MAX_CHARS {
        Err(SessionTitleError::TooLong { max: SESSION_TITLE_MAX_CHARS })
    } else {
        Ok(title)
    }
}

/// Whether a text is more than one line.
fn many_lines(chars: &[char]) -> (r: bool)
    ensures
        r == breaks_a_line(chars@),
{
    for i in 0..chars.len()
        invariant
            forall|j: int| 0 <= j < i ==> chars@[j] != '\n' && chars@[j] != '\r',
    {
        if chars[i] == '\n' || chars[i] == '\r' {
            proof {
                assert(chars@.contains(chars@[i as int]));
            }
            return true;
        }
    }
    false
}

/// Normalize and validate a title: this is what a session is held to, whatever
/// road a name reaches it by.
pub fn normalize_session_title(input: &str) -> (r: Result<String, SessionTitleError>)
    ensures
        match r {
            Ok(name) => normalized(input@) == Ok::<Seq<char>, SessionTitleError>(name@),
            Err(e) => normalized(input@) == Err::<Seq<char>, SessionTitleError>(e),
        },
{
    let title = trim(input);
    if title.is_empty() {
        return Err(SessionTitleError::Empty);
    }
    let chars = chars_of(title);
    if many_lines(&chars) {
        return Err(SessionTitleError::Multiline);
    }
    if chars.len() > SESSION_TITLE_MAX_CHARS {
        return Err(SessionTitleError::TooLong { max: SESSION_TITLE_MAX_CHARS });
    }
    Ok(title.to_owned())
}

/// Which conversation an agent's `set_session_title` names.
#[derive(Debug, Clone, Copy, PartialEq, Eq)]
pub struct TitleCapability {
    /// The branch this names, if it names one. `None` titles the session.
    pub fork: Option<RunnerId>,
}

impl DeepView for TitleCapability {
    type V = TitleCapability;

    open spec fn deep_view(&self) -> TitleCapability {
        *self
    }
}

impl Dup for TitleCapability {
    fn dup(&self) -> (out: Self) {
        *self
    }
}

/// The renames an agent has in flight.
#[derive(Debug, PartialEq, Eq)]
pub struct TitleState {
    pending: TextMap<String>,
}

/// What a [`TitleState`] stands for.
#[verifier::ext_equal]
pub struct TitleStateView {
    /// Names asked for and not yet answered, by the model's call.
    pub pending: Map<Seq<char>, Seq<char>>,
}

impl DeepView for TitleState {
    type V = TitleStateView;

    closed spec fn deep_view(&self) -> TitleStateView {
        TitleStateView { pending: self.pending.map() }
    }
}

impl Dup for TitleState {
    fn dup(&self) -> (out: Self) {
        TitleState { pending: self.pending.dup() }
    }
}

impl Clone for TitleState {
    fn clone(&self) -> (out: Self)
        ensures
            out.deep_view() == self.deep_view(),
    {
        self.dup()
    }
}

impl TitleStateView {
    /// Nothing in flight.
    pub open spec fn idle() -> TitleStateView {
        TitleStateView { pending: Map::empty() }
    }

    /// After the session was asked for a name.
    pub open spec fn asked(self, call: Seq<char>, name: Seq<char>) -> TitleStateView {
        TitleStateView { pending: self.pending.insert(call, name) }
    }

    /// After the session answered this call, either way. The name it took is
    /// not kept: what a conversation is called is the session's to know.
    pub open spec fn answered(self, call: Seq<char>) -> TitleStateView {
        TitleStateView { pending: self.pending.remove(call) }
    }
}

impl Default for TitleState {
    fn default() -> (r: Self)
        ensures
            r.deep_view() == TitleStateView::idle(),
    {
        TitleState { pending: TextMap::new() }
    }
}

impl TitleState {
    /// The agent asked the session for `name` on this call.
    pub fn asked(&mut self, call: String, name: String)
        ensures
            final(self).deep_view() == old(self).deep_view().asked(call@, name@),
    {
        self.pending.insert(call, name);
    }

    /// The session took it, so the rename is no longer in flight.
    pub fn set(&mut self, call: &str, _name: String)
        ensures
            final(self).deep_view() == old(self).deep_view().answered(call@),
    {
        let _ = self.pending.remove(call);
    }

    /// The session would not take it, so the rename is no longer in flight.
    pub fn refused(&mut self, call: &str)
        ensures
            final(self).deep_view() == old(self).deep_view().answered(call@),
    {
        let _ = self.pending.remove(call);
    }

    /// The renames still waiting on the session, in the order of the calls.
    pub fn pending(&self) -> (r: Vec<(String, String)>)
        ensures
            r.deep_view() == sorted::entries_of(self.deep_view().pending),
            self.deep_view().pending.dom().finite(),
    {
        let n: usize = self.pending.len();
        let ghost all = self.pending.deep_view();
        let mut out: Vec<(String, String)> = Vec::new();
        for i in 0..n
            invariant
                n == all.len(),
                all == self.pending.deep_view(),
                out.deep_view() == all.take(i as int),
        {
            let ghost had = out.deep_view();
            let (call, name) = self.pending.at(i);
            out.push((call.to_owned(), name.clone()));
            proof {
                assert(out.deep_view() =~= had.push(all[i as int]));
                assert(all.take(i + 1) =~= all.take(i as int).push(all[i as int]));
            }
        }
        proof {
            assert(all.take(n as int) =~= all);
            sorted::law_entries_are_determined(all);
            sorted::lemma_entries_are_finite(all);
        }
        out
    }
}

/// The arguments of `set_session_title`.
#[derive(Debug, PartialEq, Eq)]
pub struct Request {
    pub title: String,
}

/// What a [`Request`] stands for.
#[verifier::ext_equal]
pub struct RequestView {
    pub title: Seq<char>,
}

impl DeepView for Request {
    type V = RequestView;

    open spec fn deep_view(&self) -> RequestView {
        RequestView {
            title: self.title.deep_view(),
        }
    }
}

impl Dup for Request {
    fn dup(&self) -> (out: Self) {
        Request {
            title: self.title.dup(),
        }
    }
}

impl Clone for Request {
    fn clone(&self) -> (out: Self)
        ensures
            out.deep_view() == self.deep_view(),
    {
        self.dup()
    }
}

/// What a call to `set_session_title` came to.
#[derive(Debug, PartialEq, Eq)]
pub enum Renamed {
    /// A name the session would refuse, in words. Journals nothing.
    Told(String),
    /// Journal the ask and put this name, normalized, to the session.
    Ask { name: String },
}

/// What a [`Renamed`] stands for.
#[verifier::ext_equal]
pub enum RenamedView {
    Told(Seq<char>),
    Ask { name: Seq<char> },
}

impl DeepView for Renamed {
    type V = RenamedView;

    open spec fn deep_view(&self) -> RenamedView {
        match self {
            Renamed::Told(a) => RenamedView::Told(a.deep_view()),
            Renamed::Ask { name } => RenamedView::Ask {
                name: name.deep_view(),
            },
        }
    }
}

impl Dup for Renamed {
    fn dup(&self) -> (out: Self) {
        match self {
            Renamed::Told(a) => Renamed::Told(a.dup()),
            Renamed::Ask { name } => Renamed::Ask {
                name: name.dup(),
            },
        }
    }
}

impl Clone for Renamed {
    fn clone(&self) -> (out: Self)
        ensures
            out.deep_view() == self.deep_view(),
    {
        self.dup()
    }
}

/// What a call to `set_session_title` comes to.
pub open spec fn renaming(request: Result<RequestView, Seq<char>>) -> RenamedView {
    match request {
        Err(e) => RenamedView::Told(
            "`set_session_title` was called with arguments it cannot read: "@ + e,
        ),
        Ok(q) => match normalized(q.title) {
            Ok(name) => RenamedView::Ask { name },
            Err(error) => RenamedView::Told(refusal_of_title(error)),
        },
    }
}

/// The paragraph an agent is told about its name by. A branch is told it is
/// one; no other conversation is.
pub open spec fn title_prompt(fork: Option<RunnerId>) -> PromptSectionView {
    match fork {
        Some(_) => PromptSectionView { key: "fork_role"@, body: FORK_PROMPT_SUFFIX@ },
        None => PromptSectionView { key: "title"@, body: TITLE_PROMPT@ },
    }
}

/// The tools this capability claims, whichever conversation it names.
pub open spec fn title_claims() -> Seq<ClaimedToolView> {
    seq![claims::tool_claimed(TOOL@, TITLE_DESCRIPTION@, TITLE_SCHEMA@, ClaimView::TitleRename)]
}

impl TitleCapability {
    /// One that names the session.
    pub fn new() -> (r: Self)
        ensures
            r.fork is None,
    {
        TitleCapability { fork: None }
    }

    /// One that names a branch.
    pub fn for_fork(fork: RunnerId) -> (r: Self)
        ensures
            r.fork == Some(fork),
    {
        TitleCapability { fork: Some(fork) }
    }

    /// What a diagnostic names this capability by.
    pub fn name(&self) -> (r: &'static str)
        ensures
            r@ == "title"@,
    {
        "title"
    }

    /// The model called `set_session_title`. What is asked for is the
    /// normalized name, so what is journaled, what the session is told and what
    /// the model is shown are one text.
    pub fn renamed(&self, request: Result<Request, String>) -> (r: Renamed)
        ensures
            r.deep_view() == renaming(text::attempt(request)),
    {
        match request {
            Err(e) => {
                let mut out =
                    "`set_session_title` was called with arguments it cannot read: ".to_owned();
                out.append(e.as_str());
                Renamed::Told(out)
            },
            Ok(q) => match normalize_session_title(q.title.as_str()) {
                Ok(name) => Renamed::Ask { name },
                Err(error) => Renamed::Told(error.text()),
            },
        }
    }

    /// The paragraph the agent is told about its name by.
    pub fn prompt(&self) -> (r: PromptSection)
        ensures
            r.deep_view() == title_prompt(self.fork),
    {
        match self.fork {
            Some(_) => PromptSection { key: "fork_role", body: FORK_PROMPT_SUFFIX.to_owned() },
            None => PromptSection { key: "title", body: TITLE_PROMPT.to_owned() },
        }
    }

    /// The tools this capability claims.
    pub fn claims(&self) -> (r: Vec<ClaimedTool>)
        ensures
            r.deep_view() == title_claims(),
    {
        let mut out: Vec<ClaimedTool> = Vec::new();
        out.push(
            ClaimedTool::new(
                TOOL,
                TITLE_DESCRIPTION.to_owned(),
                TITLE_SCHEMA,
                Claim::TitleRename,
            ),
        );
        proof {
            assert(out.deep_view() =~= title_claims());
        }
        out
    }
}

impl Default for TitleCapability {
    fn default() -> (r: Self)
        ensures
            r.fork is None,
    {
        TitleCapability { fork: None }
    }
}

/// The request a name is asked for with.
pub open spec fn title_request(call: Seq<char>, name: Seq<char>) -> SessionRequestView {
    SessionRequestView::SetTitle { call, title: name }
}

/// The request a name is asked for with. The rename and the ask on load both
/// use it, because the second has to send exactly what the first sent.
pub fn request(call: &str, name: &str) -> (r: SessionRequest)
    ensures
        r.deep_view() == title_request(call@, name@),
{
    SessionRequest::SetTitle { call: call.to_owned(), title: name.to_owned() }
}

/// What the session said about a rename this agent asked for.
#[derive(Debug, PartialEq, Eq)]
pub enum Titled {
    Taken { name: String },
    /// Verbatim: the session is the only one that knows why.
    Refused { reason: String },
}

/// What a [`Titled`] stands for.
#[verifier::ext_equal]
pub enum TitledView {
    Taken { name: Seq<char> },
    Refused { reason: Seq<char> },
}

impl DeepView for Titled {
    type V = TitledView;

    open spec fn deep_view(&self) -> TitledView {
        match self {
            Titled::Taken { name } => TitledView::Taken {
                name: name.deep_view(),
            },
            Titled::Refused { reason } => TitledView::Refused {
                reason: reason.deep_view(),
            },
        }
    }
}

impl Dup for Titled {
    fn dup(&self) -> (out: Self) {
        match self {
            Titled::Taken { name } => Titled::Taken {
                name: name.dup(),
            },
            Titled::Refused { reason } => Titled::Refused {
                reason: reason.dup(),
            },
        }
    }
}

impl Clone for Titled {
    fn clone(&self) -> (out: Self)
        ensures
            out.deep_view() == self.deep_view(),
    {
        self.dup()
    }
}

impl TitledView {
    /// What the model is told.
    pub open spec fn told(self) -> Seq<char> {
        match self {
            TitledView::Taken { name } => "Session title set to \""@ + name + "\"."@,
            TitledView::Refused { reason } => reason,
        }
    }
}

impl Titled {
    /// What the model is told.
    pub fn told(&self) -> (r: String)
        ensures
            r@ == self.deep_view().told(),
    {
        match self {
            Titled::Taken { name } => {
                let mut out = "Session title set to \"".to_owned();
                out.append(name.as_str());
                out.append("\".");
                out
            },
            Titled::Refused { reason } => reason.clone(),
        }
    }
}

/// What a reply says about a rename, if it answers one of these.
pub open spec fn title_reply(pending: Map<Seq<char>, Seq<char>>, reply: SessionReplyView) -> Option<
    TitledView,
> {
    if pending.contains_key(reply.call()) {
        Some(
            match reply {
                SessionReplyView::Done { call } => TitledView::Taken { name: pending[call] },
                SessionReplyView::Refused { reason, .. } => TitledView::Refused { reason },
            },
        )
    } else {
        None
    }
}

/// What the session answered about a rename; `None` when the reply answers
/// something that is not one of these.
pub fn titled(state: &TitleState, reply: &SessionReply) -> (r: Option<Titled>)
    ensures
        r.deep_view() == title_reply(state.deep_view().pending, reply.deep_view()),
{
    match state.pending.get(reply.call()) {
        None => None,
        Some(name) => Some(
            match reply {
                SessionReply::Done { .. } => Titled::Taken { name: name.clone() },
                SessionReply::Refused { reason, .. } => Titled::Refused { reason: reason.clone() },
            },
        ),
    }
}

/// Every rename asked for and never answered, asked again.
pub open spec fn titles_asked_again(pending: Map<Seq<char>, Seq<char>>) -> Seq<SessionRequestView> {
    sorted::entries_of(pending).map_values(|e: (Seq<char>, Seq<char>)| title_request(e.0, e.1))
}

/// Every rename asked for and never answered, asked again, in the order of the
/// calls.
pub fn reloaded(state: &TitleState) -> (r: Vec<SessionRequest>)
    ensures
        r.deep_view() == titles_asked_again(state.deep_view().pending),
        state.deep_view().pending.dom().finite(),
{
    let n: usize = state.pending.len();
    let ghost entries = state.pending.deep_view();
    let ghost all = entries.map_values(|e: (Seq<char>, Seq<char>)| title_request(e.0, e.1));
    let mut out: Vec<SessionRequest> = Vec::new();
    for i in 0..n
        invariant
            n == entries.len(),
            entries == state.pending.deep_view(),
            all == entries.map_values(|e: (Seq<char>, Seq<char>)| title_request(e.0, e.1)),
            out.deep_view() == all.take(i as int),
    {
        let ghost had = out.deep_view();
        let (call, name) = state.pending.at(i);
        out.push(request(call, name.as_str()));
        proof {
            assert(out.deep_view() =~= had.push(all[i as int]));
            assert(all.take(i + 1) =~= all.take(i as int).push(all[i as int]));
        }
    }
    proof {
        assert(all.take(n as int) =~= all);
        sorted::law_entries_are_determined(entries);
        sorted::lemma_entries_are_finite(entries);
    }
    out
}

/// Normalizing a name changes nothing about one that is normalized already, so
/// the session's own check never refuses what this one let through.
pub proof fn law_a_normalized_title_stands(input: Seq<char>)
    requires
        normalized(input) is Ok,
    ensures
        normalized(normalized(input)->Ok_0) == normalized(input),
{
    text::law_trimming_twice_is_trimming(input);
}

/// What the model is told of a rename the session took quotes the name that
/// was asked for, and the ask sends that same name.
pub proof fn law_the_name_asked_is_the_name_confirmed(
    state: TitleStateView,
    call: Seq<char>,
    name: Seq<char>,
)
    ensures
        title_reply(state.asked(call, name).pending, SessionReplyView::Done { call }) == Some(
            TitledView::Taken { name },
        ),
        title_request(call, name)->title == name,
{
}

/// A rename the session never answered is asked for again, under the same call
/// and for the same name.
pub proof fn law_an_unanswered_rename_is_asked_again(
    state: TitleStateView,
    call: Seq<char>,
    name: Seq<char>,
)
    requires
        state.pending.dom().finite(),
    ensures
        titles_asked_again(state.asked(call, name).pending).contains(title_request(call, name)),
{
    let map = state.asked(call, name).pending;
    sorted::law_a_finite_map_is_listed(map);
    let entries = sorted::entries_of(map);
    assert(sorted::map_of(entries).contains_key(call));
    let i = sorted::keys_of(entries).index_of(call);
    sorted::lemma_map_of_entry(entries, i);
    assert(entries[i] == (call, name));
    assert(titles_asked_again(map)[i] == title_request(call, name));
}

/// A rename the session answered is not asked for again.
pub proof fn law_an_answered_rename_is_not_asked_again(
    state: TitleStateView,
    call: Seq<char>,
    request: SessionRequestView,
)
    requires
        state.pending.dom().finite(),
        request.call() == call,
    ensures
        !titles_asked_again(state.answered(call).pending).contains(request),
{
    let map = state.answered(call).pending;
    sorted::law_a_finite_map_is_listed(map);
    let entries = sorted::entries_of(map);
    assert forall|i: int| 0 <= i < entries.len() implies #[trigger] titles_asked_again(map)[i]
        != request by {
        sorted::lemma_map_of_entry(entries, i);
    }
}

/// A title is taken without the white space around it, when that leaves
/// something, on one line, of at most sixty characters; otherwise it is
/// refused for the first of these it fails.
pub proof fn law_a_title_is_one_short_line(input: Seq<char>)
    ensures
        ({
            let title = text::trimmed(input);
            let lines = title.contains('\n') || title.contains('\r');
            let r = normalized(input);
            &&& title.len() == 0 ==> r == Err::<Seq<char>, SessionTitleError>(
                SessionTitleError::Empty,
            )
            &&& title.len() > 0 && lines ==> r == Err::<Seq<char>, SessionTitleError>(
                SessionTitleError::Multiline,
            )
            &&& title.len() > 60 && !lines ==> r == Err::<Seq<char>, SessionTitleError>(
                SessionTitleError::TooLong { max: 60 },
            )
            &&& 0 < title.len() <= 60 && !lines ==> r == Ok::<Seq<char>, SessionTitleError>(title)
        }),
{
}

/// A rename that can be made asks for the title as it is taken; one that
/// cannot tells the model why, in words.
pub proof fn law_a_rename_asks_or_tells(q: RequestView, e: Seq<char>)
    ensures
        renaming(Err(e)) == RenamedView::Told(
            "`set_session_title` was called with arguments it cannot read: "@ + e,
        ),
        normalized(q.title) matches Ok(name) ==> renaming(Ok(q)) == (RenamedView::Ask { name }),
        normalized(q.title) == Err::<Seq<char>, SessionTitleError>(SessionTitleError::Empty)
            ==> renaming(Ok(q)) == RenamedView::Told("session title must not be empty"@),
        normalized(q.title) == Err::<Seq<char>, SessionTitleError>(SessionTitleError::Multiline)
            ==> renaming(Ok(q)) == RenamedView::Told("session title must be a single line"@),
        text::trimmed(q.title).len() > 60 && normalized(q.title) == Err::<Seq<char>, SessionTitleError>(
            SessionTitleError::TooLong { max: 60 },
        ) ==> renaming(Ok(q)) == RenamedView::Told(
            "session title must be at most "@ + text::decimal(60) + " characters"@,
        ),
{
}

/// A rename goes to the session under its call, and only a reply to a rename
/// in flight is news: taken, it confirms the name that was asked; refused, it
/// gives the session's reason.
pub proof fn law_only_a_rename_in_flight_is_answered(
    pending: Map<Seq<char>, Seq<char>>,
    call: Seq<char>,
    name: Seq<char>,
    reason: Seq<char>,
)
    ensures
        title_request(call, name) == (SessionRequestView::SetTitle { call, title: name }),
        pending.contains_key(call) ==> title_reply(pending, SessionReplyView::Done { call })
            == Some(TitledView::Taken { name: pending[call] }),
        pending.contains_key(call) ==> title_reply(
            pending,
            SessionReplyView::Refused { call, reason },
        ) == Some(TitledView::Refused { reason }),
        !pending.contains_key(call) ==> title_reply(pending, SessionReplyView::Done { call })
            is None && title_reply(pending, SessionReplyView::Refused { call, reason }) is None,
        (TitledView::Taken { name }).told() == "Session title set to \""@ + name + "\"."@,
        (TitledView::Refused { reason }).told() == reason,
{
}

/// A branch is told that it is one; any other agent is told to name itself.
pub proof fn law_a_branch_is_told_what_it_is(fork: RunnerId)
    ensures
        title_prompt(Some(fork)) == (PromptSectionView {
            key: "fork_role"@,
            body: FORK_PROMPT_SUFFIX@,
        }),
        title_prompt(None) == (PromptSectionView { key: "title"@, body: TITLE_PROMPT@ }),
{
}

} // verus!
