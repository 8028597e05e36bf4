//! Waiting for a condition on the page, and the state of media elements.

use vstd::prelude::*;

use crate::commands::command::{
    clone_opt_target, opt_target, result_err, result_ok, Command, CommandResult, CommandTarget,
    CommandView, NodeId, ResultView, TargetView,
};
use crate::commands::matcher::{candidate_of, is_target, resolve_command_target, text_or_empty};
use crate::dom::node::{DomSnapshot, NodeView};
use crate::events::wire::no_members;
use crate::json::{
    array, entries_view, members_map, object, put, text_or_null, values_view, JsonValue, JsonView,
};
use crate::runtime::executor::{
    resolve_target_id, snapshot_of, target_by_id, AegisRuntime, RuntimeView,
};
use crate::runtime::page::{media_view, MediaDiagnostics, MediaView, WaitLiveState};
use crate::text::{
    clone_opt, contains, contains_text, normalize_text, normalized_text, opt_str, opt_text,
};
use crate::transport::bridge::{AegisError, ErrorView};

verus! {

/// How long a wait takes at most where nothing else is asked for.
pub const DEFAULT_WAIT_TIMEOUT_MS: u64 = 5_000;

/// How often a wait looks where nothing else is asked for.
pub const DEFAULT_WAIT_POLL_INTERVAL_MS: u64 = 50;

/// How often a wait looks at most.
pub const MIN_WAIT_POLL_INTERVAL_MS: u64 = 10;

/// What is waited for.
#[derive(Debug)]
pub struct WaitCondition {
    pub target: Option<CommandTarget>,
    pub selector: Option<String>,
    pub url_contains: Option<String>,
    pub title_contains: Option<String>,
    pub text: Option<String>,
    pub ready_state: Option<String>,
    pub scroll_x: Option<i64>,
    pub scroll_y: Option<i64>,
    pub scroll_changed: Option<bool>,
    pub media_current_src_contains: Option<String>,
    pub media_ready_state_at_least: Option<u8>,
    pub media_duration_known: Option<bool>,
    pub animation_idle_ms: Option<u64>,
}

/// The contents of a `WaitCondition`.
#[verifier::ext_equal]
pub struct WaitView {
    pub target: Option<TargetView>,
    pub selector: Option<Seq<char>>,
    pub url_contains: Option<Seq<char>>,
    pub title_contains: Option<Seq<char>>,
    pub text: Option<Seq<char>>,
    pub ready_state: Option<Seq<char>>,
    pub scroll_x: Option<i64>,
    pub scroll_y: Option<i64>,
    pub scroll_changed: Option<bool>,
    pub media_current_src_contains: Option<Seq<char>>,
    pub media_ready_state_at_least: Option<u8>,
    pub media_duration_known: Option<bool>,
    pub animation_idle_ms: Option<u64>,
}

impl View for WaitCondition {
    type V = WaitView;

    open spec fn view(&self) -> WaitView {
        WaitView {
            target: opt_target(self.target),
            selector: opt_text(self.selector),
            url_contains: opt_text(self.url_contains),
            title_contains: opt_text(self.title_contains),
            text: opt_text(self.text),
            ready_state: opt_text(self.ready_state),
            scroll_x: self.scroll_x,
            scroll_y: self.scroll_y,
            scroll_changed: self.scroll_changed,
            media_current_src_contains: opt_text(self.media_current_src_contains),
            media_ready_state_at_least: self.media_ready_state_at_least,
            media_duration_known: self.media_duration_known,
            animation_idle_ms: self.animation_idle_ms,
        }
    }
}

/// When a wait ends and how often it looks.
#[derive(Debug, Clone, Copy, PartialEq, Eq, Structural)]
pub struct WaitTimer {
    pub timeout_ms: u64,
    pub poll_interval_ms: u64,
    pub deadline_ms: u64,
}

/// The timer of a wait that starts now.
pub open spec fn timer_of(timeout_ms: Option<u64>, poll_ms: Option<u64>, now: u64) -> WaitTimer {
    let timeout = match timeout_ms {
        Some(t) => t,
        None => DEFAULT_WAIT_TIMEOUT_MS,
    };
    let poll = match poll_ms {
        Some(p) => p,
        None => DEFAULT_WAIT_POLL_INTERVAL_MS,
    };
    WaitTimer {
        timeout_ms: timeout,
        poll_interval_ms: if poll < MIN_WAIT_POLL_INTERVAL_MS {
            MIN_WAIT_POLL_INTERVAL_MS
        } else {
            poll
        },
        deadline_ms: if now + timeout > u64::MAX {
            u64::MAX
        } else {
            (now + timeout) as u64
        },
    }
}

/// What a wait command waits for.
pub open spec fn wait_of(c: CommandView) -> Option<WaitView> {
    match c {
        CommandView::WaitFor {
            target,
            selector,
            url_contains,
            title_contains,
            text,
            ready_state,
            scroll_x,
            scroll_y,
            scroll_changed,
            media_current_src_contains,
            media_ready_state_at_least,
            media_duration_known,
            animation_idle_ms,
            timeout_ms,
            poll_interval_ms,
        } => Some(
            WaitView {
                target,
                selector,
                url_contains,
                title_contains,
                text,
                ready_state,
                scroll_x,
                scroll_y,
                scroll_changed,
                media_current_src_contains,
                media_ready_state_at_least,
                media_duration_known,
                animation_idle_ms,
            },
        ),
        _ => None,
    }
}

/// The condition and the timer of a wait command that starts now.
pub fn begin_wait(command: &Command, now_ms: u64) -> (res: Option<(WaitCondition, WaitTimer)>)
    ensures
        match res {
            Some((w, t)) => wait_of(command@) == Some(w@) && (command@ matches CommandView::WaitFor {
                timeout_ms,
                poll_interval_ms,
                ..
            } && t == timer_of(timeout_ms, poll_interval_ms, now_ms)),
            None => wait_of(command@) is None,
        },
{
    match command {
        Command::WaitFor {
            target,
            selector,
            url_contains,
            title_contains,
            text,
            ready_state,
            scroll_x,
            scroll_y,
            scroll_changed,
            media_current_src_contains,
            media_ready_state_at_least,
            media_duration_known,
            animation_idle_ms,
            timeout_ms,
            poll_interval_ms,
        } => {
            let timeout: u64 = match timeout_ms {
                Some(t) => *t,
                None => DEFAULT_WAIT_TIMEOUT_MS,
            };
            let poll: u64 = match poll_interval_ms {
                Some(p) => *p,
                None => DEFAULT_WAIT_POLL_INTERVAL_MS,
            };
            let deadline_ms: u64 = if timeout > u64::MAX - now_ms {
                u64::MAX
            } else {
                now_ms + timeout
            };
            Some(
                (
                    WaitCondition {
                        target: clone_opt_target(target),
                        selector: clone_opt(selector),
                        url_contains: clone_opt(url_contains),
                        title_contains: clone_opt(title_contains),
                        text: clone_opt(text),
                        ready_state: clone_opt(ready_state),
                        scroll_x: *scroll_x,
                        scroll_y: *scroll_y,
                        scroll_changed: *scroll_changed,
                        media_current_src_contains: clone_opt(media_current_src_contains),
                        media_ready_state_at_least: *media_ready_state_at_least,
                        media_duration_known: *media_duration_known,
                        animation_idle_ms: *animation_idle_ms,
                    },
                    WaitTimer {
                        timeout_ms: timeout,
                        poll_interval_ms: if poll < MIN_WAIT_POLL_INTERVAL_MS {
                            MIN_WAIT_POLL_INTERVAL_MS
                        } else {
                            poll
                        },
                        deadline_ms,
                    },
                ),
            )
        },
        _ => None,
    }
}

/// Whether a text, normalized, holds another, normalized; a missing text holds what the empty
/// one holds.
pub open spec fn includes(hay: Option<Seq<char>>, needle: Seq<char>) -> bool {
    contains_text(normalized_text(text_or_empty(hay)), normalized_text(needle))
}

fn includes_normalized(hay: Option<&str>, needle: &str) -> (res: bool)
    ensures
        res == includes(crate::commands::matcher::opt_view(hay), needle@),
{
    let empty = String::new();
    assert(empty@ =~= Seq::<char>::empty());
    let h = match hay {
        Some(t) => normalize_text(t),
        None => normalize_text(empty.as_str()),
    };
    let n = normalize_text(needle);
    contains(h.as_str(), n.as_str())
}

/// Whether a text holds what is asked for, if anything is.
pub open spec fn wanted_text_in(hay: Option<Seq<char>>, needle: Option<Seq<char>>) -> bool {
    match needle {
        Some(n) => includes(hay, n),
        None => true,
    }
}

fn wanted_in(hay: Option<&str>, needle: &Option<String>) -> (res: bool)
    ensures
        res == wanted_text_in(crate::commands::matcher::opt_view(hay), opt_text(*needle)),
{
    match needle {
        Some(n) => includes_normalized(hay, n.as_str()),
        None => true,
    }
}

/// Whether address, title and ready state are as asked for.
pub open spec fn page_holds(r: RuntimeView, w: WaitView) -> bool {
    &&& wanted_text_in(r.url, w.url_contains)
    &&& wanted_text_in(r.title, w.title_contains)
    &&& wanted_text_in(r.ready_state, w.ready_state)
}

/// Whether the page has to be asked for its scroll position, a selector or animations.
pub open spec fn needs_live(w: WaitView) -> bool {
    w.selector is Some || w.scroll_x is Some || w.scroll_y is Some || w.scroll_changed == Some(true)
        || w.animation_idle_ms is Some
}

/// Whether selector and scroll position are as asked for.
pub open spec fn live_holds(
    w: WaitView,
    live: Option<WaitLiveState>,
    initial: WaitLiveState,
) -> bool {
    &&& w.selector is Some ==> (live matches Some(s) && s.selector_found)
    &&& w.scroll_x is Some ==> (live matches Some(s) && s.scroll_x == w.scroll_x)
    &&& w.scroll_y is Some ==> (live matches Some(s) && s.scroll_y == w.scroll_y)
    &&& w.scroll_changed == Some(true) ==> (live matches Some(s) ==> s.scroll_x != initial.scroll_x
        || s.scroll_y != initial.scroll_y)
}

/// Whether the document has to be current.
pub open spec fn needs_document(w: WaitView) -> bool {
    w.target is Some || w.text is Some
}

/// Whether the document holds the target and the text that are asked for.
pub open spec fn document_holds(nodes: Seq<NodeView>, w: WaitView) -> bool {
    &&& w.target matches Some(t) ==> exists|i: int| is_target(nodes, t, None, i)
    &&& w.text matches Some(needle) ==> exists|i: int|
        0 <= i < nodes.len() && includes((#[trigger] nodes[i]).text, needle)
}

/// The ready state of a media element; the lowest where it is not known.
pub open spec fn media_ready(m: MediaView) -> u8 {
    match m.ready_state {
        Some(s) => s,
        None => 0,
    }
}

/// Whether the media elements are as asked for.
pub open spec fn media_holds(media: Seq<MediaView>, w: WaitView) -> bool {
    &&& w.media_current_src_contains matches Some(needle) ==> exists|i: int|
        0 <= i < media.len() && includes((#[trigger] media[i]).current_src, needle)
    &&& w.media_ready_state_at_least matches Some(minimum) ==> exists|i: int|
        0 <= i < media.len() && media_ready(#[trigger] media[i]) >= minimum
    &&& w.media_duration_known matches Some(required) ==> required == exists|i: int|
        0 <= i < media.len() && (#[trigger] media[i]).duration_known
}

/// Whether animations have been idle for as long as is asked for, and since when they have.
pub open spec fn animation_idle(
    w: WaitView,
    live: Option<WaitLiveState>,
    since: Option<u64>,
    now: u64,
) -> (bool, Option<u64>) {
    match w.animation_idle_ms {
        None => (true, since),
        Some(idle) => if live matches Some(s) && s.animations_running {
            (false, None)
        } else {
            let start = match since {
                Some(t) => t,
                None => now,
            };
            (
                if now >= start {
                    now - start >= idle
                } else {
                    idle == 0
                },
                Some(start),
            )
        },
    }
}

/// How much of a condition has been looked at.
#[derive(Debug, Clone, Copy, PartialEq, Eq, Structural)]
pub enum WaitStage {
    /// Nothing yet.
    Page,
    /// The page has been asked for its live state.
    Live,
    /// The document is current.
    Document,
}

/// What looking at a condition came to.
#[derive(Debug, Clone, Copy, PartialEq, Eq, Structural)]
pub enum WaitStep {
    /// The condition does not hold yet.
    NotYet,
    /// The page has to be asked for its live state first.
    NeedLiveState,
    /// The document has to be made current first.
    NeedDocument,
    /// The condition holds.
    Satisfied,
}

/// What looking at a condition comes to, and since when animations have been idle then.
pub open spec fn wait_step(
    r: RuntimeView,
    w: WaitView,
    stage: WaitStage,
    live: Option<WaitLiveState>,
    initial: WaitLiveState,
    since: Option<u64>,
    now: u64,
) -> (WaitStep, Option<u64>) {
    if stage is Page && !page_holds(r, w) {
        (WaitStep::NotYet, since)
    } else if stage is Page && needs_live(w) {
        (WaitStep::NeedLiveState, since)
    } else if !(stage is Document) && !live_holds(w, live, initial) {
        (WaitStep::NotYet, since)
    } else if !(stage is Document) && needs_document(w) {
        (WaitStep::NeedDocument, since)
    } else if !document_holds(snapshot_of(r.dom), w) || !media_holds(r.media, w) {
        (WaitStep::NotYet, since)
    } else {
        let (idle, start) = animation_idle(w, live, since, now);
        (
            if idle {
                WaitStep::Satisfied
            } else {
                WaitStep::NotYet
            },
            start,
        )
    }
}

fn live_state_holds(
    w: &WaitCondition,
    live: Option<WaitLiveState>,
    initial: &WaitLiveState,
) -> (res: bool)
    ensures
        res == live_holds(w@, live, *initial),
{
    if w.selector.is_some() {
        match live {
            Some(s) => {
                if !s.selector_found {
                    return false;
                }
            },
            None => {
                return false;
            },
        }
    }
    if let Some(expected) = w.scroll_x {
        let at = match live {
            Some(s) => s.scroll_x,
            None => None,
        };
        match at {
            Some(x) => {
                if x != expected {
                    return false;
                }
            },
            None => {
                return false;
            },
        }
    }
    if let Some(expected) = w.scroll_y {
        let at = match live {
            Some(s) => s.scroll_y,
            None => None,
        };
        match at {
            Some(y) => {
                if y != expected {
                    return false;
                }
            },
            None => {
                return false;
            },
        }
    }
    if let Some(changed) = w.scroll_changed {
        if changed {
            if let Some(s) = live {
                if s.scroll_x == initial.scroll_x && s.scroll_y == initial.scroll_y {
                    return false;
                }
            }
        }
    }
    true
}

fn document_state_holds(snapshot: &DomSnapshot, w: &WaitCondition) -> (res: bool)
    ensures
        res == document_holds(snapshot@, w@),
{
    if let Some(target) = &w.target {
        match resolve_command_target(snapshot, target, None) {
            Some(_) => {},
            None => {
                proof {
                    if exists|i: int| is_target(snapshot@, target@, None, i) {
                        let i = choose|i: int| is_target(snapshot@, target@, None, i);
                        match target@ {
                            TargetView::Id { id } => {
                                assert(snapshot@[i].id == id);
                            },
                            TargetView::Match { matcher } => {
                                assert(candidate_of(snapshot@[i], matcher, None) is Some);
                            },
                        }
                    }
                }
                return false;
            },
        }
    }
    if let Some(needle) = &w.text {
        let ghost nodes = snapshot@;
        let mut found = false;
        let mut i: usize = 0;
        while i < snapshot.nodes.len() && !found
            invariant
                i <= snapshot.nodes@.len(),
                nodes == snapshot@,
                found ==> exists|j: int|
                    0 <= j < nodes.len() && includes((#[trigger] nodes[j]).text, needle@),
                !found ==> forall|j: int|
                    0 <= j < i ==> !includes((#[trigger] nodes[j]).text, needle@),
            decreases snapshot.nodes@.len() - i + if found { 0int } else { 1int },
        {
            assert(nodes[i as int] == snapshot.nodes@[i as int]@);
            if includes_normalized(opt_str(&snapshot.nodes[i].text), needle.as_str()) {
                assert(includes(nodes[i as int].text, needle@));
                found = true;
            } else {
                i += 1;
            }
        }
        if !found {
            return false;
        }
    }
    true
}

fn any_media_src(media: &Vec<MediaDiagnostics>, needle: &str) -> (res: bool)
    ensures
        res == exists|i: int|
            0 <= i < media@.len() && includes((#[trigger] media_view(media@)[i]).current_src, needle@),
{
    let ghost views = media_view(media@);
    let mut i: usize = 0;
    while i < media.len()
        invariant
            i <= media@.len(),
            views == media_view(media@),
            forall|j: int| 0 <= j < i ==> !includes((#[trigger] views[j]).current_src, needle@),
        decreases media@.len() - i,
    {
        assert(views[i as int] == media@[i as int]@);
        if includes_normalized(opt_str(&media[i].current_src), needle) {
            assert(includes(views[i as int].current_src, needle@));
            return true;
        }
        i += 1;
    }
    false
}

fn any_media_ready(media: &Vec<MediaDiagnostics>, minimum: u8) -> (res: bool)
    ensures
        res == exists|i: int|
            0 <= i < media@.len() && media_ready(#[trigger] media_view(media@)[i]) >= minimum,
{
    let ghost views = media_view(media@);
    let mut i: usize = 0;
    while i < media.len()
        invariant
            i <= media@.len(),
            views == media_view(media@),
            forall|j: int| 0 <= j < i ==> media_ready(#[trigger] views[j]) < minimum,
        decreases media@.len() - i,
    {
        assert(views[i as int] == media@[i as int]@);
        let state: u8 = match media[i].ready_state {
            Some(s) => s,
            None => 0,
        };
        if state >= minimum {
            assert(media_ready(views[i as int]) >= minimum);
            return true;
        }
        i += 1;
    }
    false
}

fn any_media_duration(media: &Vec<MediaDiagnostics>) -> (res: bool)
    ensures
        res == exists|i: int|
            0 <= i < media@.len() && (#[trigger] media_view(media@)[i]).duration_known,
{
    let ghost views = media_view(media@);
    let mut i: usize = 0;
    while i < media.len()
        invariant
            i <= media@.len(),
            views == media_view(media@),
            forall|j: int| 0 <= j < i ==> !(#[trigger] views[j]).duration_known,
        decreases media@.len() - i,
    {
        assert(views[i as int] == media@[i as int]@);
        if media[i].duration_known {
            assert(views[i as int].duration_known);
            return true;
        }
        i += 1;
    }
    false
}

fn media_state_holds(media: &Vec<MediaDiagnostics>, w: &WaitCondition) -> (res: bool)
    ensures
        res == media_holds(media_view(media@), w@),
{
    let src = match &w.media_current_src_contains {
        Some(needle) => any_media_src(media, needle.as_str()),
        None => true,
    };
    let ready = match w.media_ready_state_at_least {
        Some(minimum) => any_media_ready(media, minimum),
        None => true,
    };
    let duration = match w.media_duration_known {
        Some(required) => any_media_duration(media) == required,
        None => true,
    };
    src && ready && duration
}

/// The outcome of a wait that was looked at.
#[derive(Debug)]
pub enum WaitVerdict {
    /// The wait is over.
    Done(CommandResult),
    /// Look again after so many milliseconds.
    Sleep(u64),
}

/// How long a wait has taken.
pub open spec fn waited_ms(timer: WaitTimer, now: u64) -> u64 {
    let left = if timer.deadline_ms >= now {
        timer.deadline_ms - now
    } else {
        0
    };
    if timer.timeout_ms >= left {
        (timer.timeout_ms - left) as u64
    } else {
        0
    }
}

/// The result of a wait whose condition holds.
pub open spec fn wait_result(r: RuntimeView, timer: WaitTimer, now: u64) -> ResultView {
    result_ok(
        JsonView::Object(
            no_members().insert("ok"@, JsonView::Bool(true)).insert(
                "waited_ms"@,
                JsonView::Unsigned(waited_ms(timer, now)),
            ).insert("current_url"@, text_or_null(r.url)).insert(
                "current_title"@,
                text_or_null(r.title),
            ).insert("document_ready_state"@, text_or_null(r.ready_state)),
        ),
    )
}

/// The media elements of a list that belong to a node, or all of them.
pub open spec fn media_of(list: Seq<MediaView>, id: Option<NodeId>) -> Seq<MediaView>
    decreases list.len(),
{
    if list.len() == 0 {
        Seq::empty()
    } else if id is None || list.last().node_id == id {
        media_of(list.drop_last(), id).push(list.last())
    } else {
        media_of(list.drop_last(), id)
    }
}

/// The result of asking for media elements: how many there are, and their reports.
pub open spec fn media_result(list: Seq<MediaView>) -> ResultView {
    result_ok(
        JsonView::Object(
            no_members().insert("count"@, JsonView::Unsigned(list.len() as u64)).insert(
                "media"@,
                JsonView::Array(Seq::new(list.len(), |i: int| list[i].report)),
            ),
        ),
    )
}

fn nullable(text: Option<&str>) -> (res: JsonValue)
    ensures
        res@ == text_or_null(crate::commands::matcher::opt_view(text)),
{
    match text {
        Some(t) => JsonValue::text(t),
        None => JsonValue::Null,
    }
}

impl AegisRuntime {
    /// Looks at a condition as far as it can be looked at.
    pub fn wait_condition_satisfied(
        &self,
        w: &WaitCondition,
        stage: WaitStage,
        live: Option<WaitLiveState>,
        initial: &WaitLiveState,
        animation_idle_since_ms: &mut Option<u64>,
        now_ms: u64,
    ) -> (res: WaitStep)
        ensures
            (res, *final(animation_idle_since_ms)) == wait_step(
                self@,
                w@,
                stage,
                live,
                *initial,
                *old(animation_idle_since_ms),
                now_ms,
            ),
    {
        let asks_live = w.selector.is_some() || w.scroll_x.is_some() || w.scroll_y.is_some() || (
        match w.scroll_changed {
            Some(c) => c,
            None => false,
        }) || w.animation_idle_ms.is_some();
        match stage {
            WaitStage::Page => {
                let holds = wanted_in(self.current_url(), &w.url_contains) && wanted_in(
                    self.current_title(),
                    &w.title_contains,
                ) && wanted_in(self.document_ready_state(), &w.ready_state);
                assert(holds == page_holds(self@, w@));
                if !holds {
                    return WaitStep::NotYet;
                }
                if asks_live {
                    return WaitStep::NeedLiveState;
                }
            },
            _ => {},
        }
        match stage {
            WaitStage::Document => {},
            _ => {
                if !live_state_holds(w, live, initial) {
                    return WaitStep::NotYet;
                }
                if w.target.is_some() || w.text.is_some() {
                    return WaitStep::NeedDocument;
                }
            },
        }
        let snapshot = self.dom_snapshot();
        if !document_state_holds(&snapshot, w) {
            return WaitStep::NotYet;
        }
        if !media_state_holds(self.media(), w) {
            return WaitStep::NotYet;
        }
        if let Some(idle_ms) = w.animation_idle_ms {
            let running = match live {
                Some(s) => s.animations_running,
                None => false,
            };
            if running {
                *animation_idle_since_ms = None;
                return WaitStep::NotYet;
            }
            let start: u64 = match *animation_idle_since_ms {
                Some(t) => t,
                None => now_ms,
            };
            *animation_idle_since_ms = Some(start);
            let idle: u64 = if now_ms >= start {
                now_ms - start
            } else {
                0
            };
            if idle < idle_ms {
                return WaitStep::NotYet;
            }
        }
        WaitStep::Satisfied
    }

    /// The result of a wait that was cancelled, if it was.
    pub fn wait_cancelled(&self) -> (res: Option<CommandResult>)
        ensures
            match res {
                Some(r) => self@.host.cancel_requested && r@ == result_err("wait_for cancelled"@),
                None => !self@.host.cancel_requested,
            },
    {
        if self.host_state().cancel_requested {
            Some(CommandResult::err("wait_for cancelled".to_owned()))
        } else {
            None
        }
    }

    /// What follows from looking at a condition: the wait is over when it holds or the time
    /// is up.
    pub fn conclude_wait(&self, timer: &WaitTimer, satisfied: bool, now_ms: u64) -> (res:
        WaitVerdict)
        ensures
            match res {
                WaitVerdict::Done(r) => if satisfied {
                    r@ == wait_result(self@, *timer, now_ms)
                } else {
                    now_ms >= timer.deadline_ms && r@ == result_err("wait_for timed out"@)
                },
                WaitVerdict::Sleep(ms) => !satisfied && now_ms < timer.deadline_ms && ms
                    == timer.poll_interval_ms,
            },
    {
        if satisfied {
            let left: u64 = if timer.deadline_ms >= now_ms {
                timer.deadline_ms - now_ms
            } else {
                0
            };
            let waited: u64 = if timer.timeout_ms >= left {
                timer.timeout_ms - left
            } else {
                0
            };
            let mut entries: Vec<(String, JsonValue)> = Vec::new();
            assert(members_map(entries_view(entries@)) =~= no_members());
            put(&mut entries, "ok", JsonValue::Bool(true));
            put(&mut entries, "waited_ms", JsonValue::Unsigned(waited));
            put(&mut entries, "current_url", nullable(self.current_url()));
            put(&mut entries, "current_title", nullable(self.current_title()));
            put(&mut entries, "document_ready_state", nullable(self.document_ready_state()));
            return WaitVerdict::Done(CommandResult::ok(object(entries)));
        }
        if now_ms >= timer.deadline_ms {
            return WaitVerdict::Done(CommandResult::err("wait_for timed out".to_owned()));
        }
        WaitVerdict::Sleep(timer.poll_interval_ms)
    }

    /// The node whose media elements are asked for.
    pub fn media_target(&self, target: &CommandTarget) -> (res: Result<NodeId, AegisError>)
        ensures
            match target_by_id(snapshot_of(self@.dom), target@, None) {
                Ok(TargetView::Id { id }) => res == Ok::<NodeId, AegisError>(id),
                Ok(TargetView::Match { .. }) => false,
                Err(r) => res matches Err(e) && r.error matches Some(m) && e@ == ErrorView::Bridge(
                    m,
                ),
            },
    {
        let snapshot = self.dom_snapshot();
        match resolve_target_id(&snapshot, target, None) {
            Ok(CommandTarget::Id { id }) => Ok(id),
            Ok(CommandTarget::Match { .. }) => Err(
                AegisError::Bridge("media target resolution failed".to_owned()),
            ),
            Err(r) => match r.error {
                Some(m) => Err(AegisError::Bridge(m)),
                None => Err(AegisError::Bridge("media target resolution failed".to_owned())),
            },
        }
    }

    /// The media elements of a node, or of the whole page.
    pub fn media_state(&self, target_id: Option<NodeId>) -> (res: CommandResult)
        ensures
            res@ == media_result(media_of(self@.media, target_id)),
    {
        let media = self.media();
        let ghost all = media_view(media@);
        let mut reports: Vec<JsonValue> = Vec::new();
        let mut i: usize = 0;
        assert(all.take(0) =~= Seq::empty());
        while i < media.len()
            invariant
                i <= media@.len(),
                all == media_view(media@),
                reports@.len() <= i,
                reports@.len() == media_of(all.take(i as int), target_id).len(),
                forall|j: int|
                    0 <= j < reports@.len() ==> (#[trigger] reports@[j])@ == media_of(
                        all.take(i as int),
                        target_id,
                    )[j].report,
            decreases media@.len() - i,
        {
            proof {
                assert(all.take(i + 1).drop_last() =~= all.take(i as int));
                assert(all.take(i + 1).last() == media@[i as int]@);
            }
            let belongs = match target_id {
                None => true,
                Some(id) => match media[i].node_id {
                    Some(node) => node == id,
                    None => false,
                },
            };
            if belongs {
                reports.push(media[i].report.clone());
            }
            i += 1;
        }
        assert(all.take(i as int) =~= all);
        let ghost chosen = media_of(all, target_id);
        assert(values_view(reports@) =~= Seq::new(chosen.len(), |k: int| chosen[k].report));
        let mut entries: Vec<(String, JsonValue)> = Vec::new();
        assert(members_map(entries_view(entries@)) =~= no_members());
        put(&mut entries, "count", JsonValue::Unsigned(reports.len() as u64));
        put(&mut entries, "media", array(reports));
        CommandResult::ok(object(entries))
    }
}

/// No wait is reported to have taken longer than it was allowed to, and the time between two
/// looks is never less than the least.
pub proof fn law_wait_bounded(timeout: Option<u64>, poll: Option<u64>, start: u64, now: u64)
    ensures
        waited_ms(timer_of(timeout, poll, start), now) <= timer_of(timeout, poll, start).timeout_ms,
        timer_of(timeout, poll, start).poll_interval_ms >= MIN_WAIT_POLL_INTERVAL_MS,
        timer_of(timeout, poll, start).deadline_ms >= start,
{
}

/// A condition that asks for nothing holds at once.
pub proof fn law_empty_wait_is_satisfied(
    r: RuntimeView,
    live: Option<WaitLiveState>,
    initial: WaitLiveState,
    since: Option<u64>,
    now: u64,
)
    ensures
        wait_step(
            r,
            WaitView {
                target: None,
                selector: None,
                url_contains: None,
                title_contains: None,
                text: None,
                ready_state: None,
                scroll_x: None,
                scroll_y: None,
                scroll_changed: None,
                media_current_src_contains: None,
                media_ready_state_at_least: None,
                media_duration_known: None,
                animation_idle_ms: None,
            },
            WaitStage::Page,
            live,
            initial,
            since,
            now,
        ) == (WaitStep::Satisfied, since),
{
}

/// A condition that asks for nothing.
pub open spec fn nothing_awaited() -> WaitView {
    WaitView {
        target: None,
        selector: None,
        url_contains: None,
        title_contains: None,
        text: None,
        ready_state: None,
        scroll_x: None,
        scroll_y: None,
        scroll_changed: None,
        media_current_src_contains: None,
        media_ready_state_at_least: None,
        media_duration_known: None,
        animation_idle_ms: None,
    }
}

/// Whether a text, normalized, shows a wanted text, normalized; a missing text shows what the
/// empty one shows.
pub open spec fn shows(text: Option<Seq<char>>, wanted: Seq<char>) -> bool {
    match text {
        Some(t) => contains_text(normalized_text(t), normalized_text(wanted)),
        None => contains_text(normalized_text(Seq::empty()), normalized_text(wanted)),
    }
}

/// What a first look comes to where only the page's own state can tell.
pub open spec fn first_look(r: RuntimeView, w: WaitView, initial: WaitLiveState, now: u64) -> WaitStep {
    wait_step(r, w, WaitStage::Page, None, initial, None, now).0
}

/// A wait for an address, a title or a ready state is over exactly when that very text of the
/// page shows what is asked for, whatever the other two are.
pub proof fn law_page_waits_look_at_their_own_text(
    r: RuntimeView,
    wanted: Seq<char>,
    initial: WaitLiveState,
    now: u64,
)
    ensures
        ({
            let address = WaitView { url_contains: Some(wanted), ..nothing_awaited() };
            let title = WaitView { title_contains: Some(wanted), ..nothing_awaited() };
            let state = WaitView { ready_state: Some(wanted), ..nothing_awaited() };
            &&& first_look(r, address, initial, now) == if shows(r.url, wanted) {
                WaitStep::Satisfied
            } else {
                WaitStep::NotYet
            }
            &&& first_look(r, title, initial, now) == if shows(r.title, wanted) {
                WaitStep::Satisfied
            } else {
                WaitStep::NotYet
            }
            &&& first_look(r, state, initial, now) == if shows(r.ready_state, wanted) {
                WaitStep::Satisfied
            } else {
                WaitStep::NotYet
            }
        }),
{
}

/// A wait that asks for several things goes on until the page has each of them: a look at the
/// page gets past it exactly when address, title and ready state all show what is asked for, and
/// it turns to the live state exactly when a selector, a scroll position or animations are asked
/// for.
pub proof fn law_page_is_looked_at_first(
    r: RuntimeView,
    w: WaitView,
    initial: WaitLiveState,
    since: Option<u64>,
    now: u64,
)
    ensures
        ({
            let (step, after) = wait_step(r, w, WaitStage::Page, None, initial, since, now);
            let page = {
                &&& w.url_contains matches Some(x) ==> shows(r.url, x)
                &&& w.title_contains matches Some(x) ==> shows(r.title, x)
                &&& w.ready_state matches Some(x) ==> shows(r.ready_state, x)
            };
            let live = w.selector is Some || w.scroll_x is Some || w.scroll_y is Some
                || w.scroll_changed == Some(true) || w.animation_idle_ms is Some;
            &&& !page ==> step is NotYet && after == since
            &&& step is NeedLiveState <==> page && live
            &&& page && !live && (w.target is Some || w.text is Some) <==> step is NeedDocument
        }),
{
}

/// Once the page told its live state, the selector has to be there and the scroll position has to
/// be the one that is asked for, or another than at the start; only then is the document looked
/// at, where it is asked for.
pub proof fn law_live_state_is_looked_at_next(
    r: RuntimeView,
    w: WaitView,
    live: WaitLiveState,
    initial: WaitLiveState,
    since: Option<u64>,
    now: u64,
)
    ensures
        ({
            let (step, after) = wait_step(r, w, WaitStage::Live, Some(live), initial, since, now);
            let there = {
                &&& w.selector is Some ==> live.selector_found
                &&& w.scroll_x matches Some(x) ==> live.scroll_x == Some(x)
                &&& w.scroll_y matches Some(y) ==> live.scroll_y == Some(y)
                &&& w.scroll_changed == Some(true) ==> !(live.scroll_x == initial.scroll_x
                    && live.scroll_y == initial.scroll_y)
            };
            &&& !there ==> step is NotYet && after == since
            &&& step is NeedDocument <==> there && (w.target is Some || w.text is Some)
            &&& !(step is NeedLiveState)
        }),
{
}

/// In the end a wait is over exactly when the document has the target and shows the text, the
/// media elements are as asked for, and no animation has run for as long as is asked for.
pub proof fn law_document_is_looked_at_last(
    r: RuntimeView,
    w: WaitView,
    live: Option<WaitLiveState>,
    initial: WaitLiveState,
    since: Option<u64>,
    now: u64,
)
    ensures
        ({
            let (step, after) = wait_step(r, w, WaitStage::Document, live, initial, since, now);
            let nodes = snapshot_of(r.dom);
            let running = live matches Some(s) && s.animations_running;
            let began = match since {
                Some(t) => t,
                None => now,
            };
            let there = {
                &&& w.target matches Some(t) ==> exists|i: int| is_target(nodes, t, None, i)
                &&& w.text matches Some(x) ==> exists|i: int|
                    0 <= i < nodes.len() && shows((#[trigger] nodes[i]).text, x)
                &&& w.media_current_src_contains matches Some(x) ==> exists|i: int|
                    0 <= i < r.media.len() && shows((#[trigger] r.media[i]).current_src, x)
                &&& w.media_ready_state_at_least matches Some(least) ==> least == 0 && r.media.len()
                    > 0 || exists|i: int|
                    0 <= i < r.media.len() && (#[trigger] r.media[i].ready_state matches Some(n)
                        && n >= least)
                &&& w.media_duration_known == Some(true) ==> exists|i: int|
                    0 <= i < r.media.len() && (#[trigger] r.media[i]).duration_known
                &&& w.media_duration_known == Some(false) ==> forall|i: int|
                    0 <= i < r.media.len() ==> !(#[trigger] r.media[i]).duration_known
            };
            &&& step is Satisfied || step is NotYet
            &&& w.animation_idle_ms is None ==> (step is Satisfied <==> there) && after == since
            &&& w.animation_idle_ms matches Some(idle) ==> {
                &&& step is Satisfied <==> there && !running && now - began >= idle || there
                    && !running && idle == 0
                &&& there && running ==> after is None
                &&& there && !running ==> after == Some(began)
                &&& !there ==> after == since
            }
        }),
{
    let nodes = snapshot_of(r.dom);
    if let Some(x) = w.text {
        assert forall|i: int| 0 <= i < nodes.len() implies shows((#[trigger] nodes[i]).text, x)
            == includes(nodes[i].text, x) by {}
    }
    if let Some(x) = w.media_current_src_contains {
        assert forall|i: int| 0 <= i < r.media.len() implies shows(
            (#[trigger] r.media[i]).current_src,
            x,
        ) == includes(r.media[i].current_src, x) by {}
    }
    if let Some(least) = w.media_ready_state_at_least {
        if least == 0 && r.media.len() > 0 {
            assert(media_ready(r.media[0]) >= least);
        }
        if exists|i: int|
            0 <= i < r.media.len() && (#[trigger] r.media[i].ready_state matches Some(n) && n
                >= least) {
            let i = choose|i: int|
                0 <= i < r.media.len() && (#[trigger] r.media[i].ready_state matches Some(n) && n
                    >= least);
            assert(media_ready(r.media[i]) >= least);
        }
        if exists|i: int| 0 <= i < r.media.len() && media_ready(#[trigger] r.media[i]) >= least {
            let i = choose|i: int|
                0 <= i < r.media.len() && media_ready(#[trigger] r.media[i]) >= least;
            assert(least == 0 || r.media[i].ready_state is Some);
        }
    }
}

/// A wait takes five seconds at most and looks every fifty milliseconds unless something else is
/// asked for, and never looks more often than every ten.
pub proof fn law_wait_times(timeout: Option<u64>, poll: Option<u64>, start: u64)
    ensures
        timer_of(timeout, poll, start).timeout_ms == match timeout {
            Some(ms) => ms,
            None => 5_000,
        },
        poll is None ==> timer_of(timeout, poll, start).poll_interval_ms == 50,
        poll matches Some(ms) ==> timer_of(timeout, poll, start).poll_interval_ms == if ms < 10 {
            10
        } else {
            ms
        },
        start + timer_of(timeout, poll, start).timeout_ms <= u64::MAX ==> timer_of(
            timeout,
            poll,
            start,
        ).deadline_ms == start + timer_of(timeout, poll, start).timeout_ms,
        start + timer_of(timeout, poll, start).timeout_ms > u64::MAX ==> timer_of(
            timeout,
            poll,
            start,
        ).deadline_ms == u64::MAX,
{
}

/// The time that a wait is reported to have taken is the time from its start to its end.
pub proof fn law_waited_time(timeout: Option<u64>, poll: Option<u64>, start: u64, now: u64)
    requires
        start + timer_of(timeout, poll, start).timeout_ms <= u64::MAX,
        start <= now <= timer_of(timeout, poll, start).deadline_ms,
    ensures
        waited_ms(timer_of(timeout, poll, start), now) == now - start,
{
}

/// A wait command is waited for as it was given, field by field.
pub proof fn law_wait_is_as_commanded(c: CommandView)
    ensures
        wait_of(c) is Some <==> c is WaitFor,
        wait_of(c) matches Some(w) ==> {
            &&& w.target == c->WaitFor_target
            &&& w.selector == c->WaitFor_selector
            &&& w.url_contains == c->WaitFor_url_contains
            &&& w.title_contains == c->WaitFor_title_contains
            &&& w.text == c->WaitFor_text
            &&& w.ready_state == c->WaitFor_ready_state
            &&& w.scroll_x == c->WaitFor_scroll_x
            &&& w.scroll_y == c->WaitFor_scroll_y
            &&& w.scroll_changed == c->WaitFor_scroll_changed
            &&& w.media_current_src_contains == c->WaitFor_media_current_src_contains
            &&& w.media_ready_state_at_least == c->WaitFor_media_ready_state_at_least
            &&& w.media_duration_known == c->WaitFor_media_duration_known
            &&& w.animation_idle_ms == c->WaitFor_animation_idle_ms
        },
{
}

/// The result of a wait tells where the page stands in the end.
pub proof fn law_wait_result_tells_the_page(r: RuntimeView, timer: WaitTimer, now: u64)
    ensures
        ({
            let res = wait_result(r, timer, now);
            &&& res.ok
            &&& res.error is None
            &&& res.value matches Some(v)
            &&& crate::json::member(v, "ok"@) == Some(JsonView::Bool(true))
            &&& crate::json::member(v, "waited_ms"@) == Some(
                JsonView::Unsigned(waited_ms(timer, now)),
            )
            &&& crate::json::member(v, "current_url"@) == Some(
                match r.url {
                    Some(t) => JsonView::Text(t),
                    None => JsonView::Null,
                },
            )
            &&& crate::json::member(v, "current_title"@) == Some(
                match r.title {
                    Some(t) => JsonView::Text(t),
                    None => JsonView::Null,
                },
            )
            &&& crate::json::member(v, "document_ready_state"@) == Some(
                match r.ready_state {
                    Some(t) => JsonView::Text(t),
                    None => JsonView::Null,
                },
            )
        }),
{
    reveal_strlit("ok");
    reveal_strlit("waited_ms");
    reveal_strlit("current_url");
    reveal_strlit("current_title");
    reveal_strlit("document_ready_state");
    assert("ok"@.len() == 2 && "waited_ms"@.len() == 9 && "current_url"@.len() == 11
        && "current_title"@.len() == 13 && "document_ready_state"@.len() == 20);
}

/// Asking for the media elements of a node gives the reports of just those, in their order, and
/// their number; asking for those of the page gives all.
pub proof fn law_media_of_a_node(list: Seq<MediaView>, id: Option<NodeId>)
    ensures
        id is None ==> media_of(list, id) == list,
        id is Some ==> media_of(list, id) == list.filter(|m: MediaView| m.node_id == id),
    decreases list.len(),
{
    reveal(Seq::filter);
    if list.len() > 0 {
        law_media_of_a_node(list.drop_last(), id);
        if id is None {
            assert(list.drop_last().push(list.last()) =~= list);
        }
    } else {
        assert(list =~= Seq::empty());
    }
}

/// The answer about media elements holds their number and what each of them reports.
pub proof fn law_media_result_tells_all(list: Seq<MediaView>)
    requires
        list.len() <= u64::MAX,
    ensures
        ({
            let res = media_result(list);
            &&& res.ok
            &&& res.error is None
            &&& res.value matches Some(v)
            &&& crate::json::member(v, "count"@) == Some(JsonView::Unsigned(list.len() as u64))
            &&& crate::json::member(v, "media"@) matches Some(JsonView::Array(items))
            &&& items.len() == list.len()
            &&& forall|i: int| 0 <= i < list.len() ==> #[trigger] items[i] == list[i].report
        }),
{
    reveal_strlit("count");
    reveal_strlit("media");
    assert("count"@[0] == 'c' && "media"@[0] == 'm');
}

} // verus!
