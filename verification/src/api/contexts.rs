//! The contexts of a server: which there are, how one is made and how one is left.

use vstd::prelude::*;

use crate::api::diagnostics::{
    accepts_commands, changed, counters_run, state_name, state_of, DiagnosticsChange,
    DiagnosticsView, ServeDiagnostics,
};
use crate::api::errors::{error_answer, plain_error, ApiError, ApiErrorView, NOT_FOUND};
use crate::browser::{BrowserConfig, BrowserMode, ConfigView};
use crate::paths::{is_plain_name, plain_name};
use crate::session::profile::SessionProfileInfo;
use crate::string_map::{
    distinct_keys, lemma_pairs_map_domain, lemma_pairs_map_unique, lemma_pairs_map_values,
    pairs_map,
};
use crate::text::{
    concat2, concat3, debug_quote, debug_quoted, decimal, decimal_text, lemma_text_less_irreflexive,
    lemma_text_less_total, lemma_text_less_transitive, opt_text, str_eq, str_less, text_less, trim,
    trimmed,
};
use crate::transport::bridge::{AegisError, ErrorView};

verus! {

/// How long a context took to start.
#[derive(Debug, Clone, Copy, PartialEq, Eq)]
pub struct ServeStartupMetrics {
    pub client_connect_ms: u64,
    pub api_bind_ms: u64,
    pub total_ready_ms: u64,
}

/// What the server keeps of a context.
#[derive(Debug)]
pub struct ApiState {
    pub host_library: String,
    pub browser: BrowserConfig,
    pub startup: ServeStartupMetrics,
    pub profile: SessionProfileInfo,
    pub diagnostics: ServeDiagnostics,
}

/// The contents of an `ApiState`.
#[verifier::ext_equal]
pub struct ApiStateView {
    pub host_library: Seq<char>,
    pub browser: ConfigView,
    pub startup: ServeStartupMetrics,
    pub profile: Seq<char>,
    pub profile_path: Seq<char>,
    pub diagnostics: DiagnosticsView,
}

impl View for ApiState {
    type V = ApiStateView;

    open spec fn view(&self) -> ApiStateView {
        ApiStateView {
            host_library: self.host_library@,
            browser: self.browser@,
            startup: self.startup,
            profile: self.profile.profile@,
            profile_path: self.profile.path@,
            diagnostics: self.diagnostics@,
        }
    }
}

/// What is told of a context.
#[derive(Debug)]
pub struct ContextSummary {
    pub id: String,
    pub default: bool,
    pub host_library: String,
    pub browser: BrowserConfig,
    pub profile: SessionProfileInfo,
    pub runtime_state: String,
    pub command_ready: bool,
}

/// The contents of a `ContextSummary`.
#[verifier::ext_equal]
pub struct SummaryView {
    pub id: Seq<char>,
    pub default: bool,
    pub host_library: Seq<char>,
    pub browser: ConfigView,
    pub profile: Seq<char>,
    pub profile_path: Seq<char>,
    pub runtime_state: Seq<char>,
    pub command_ready: bool,
}

impl View for ContextSummary {
    type V = SummaryView;

    open spec fn view(&self) -> SummaryView {
        SummaryView {
            id: self.id@,
            default: self.default,
            host_library: self.host_library@,
            browser: self.browser@,
            profile: self.profile.profile@,
            profile_path: self.profile.path@,
            runtime_state: self.runtime_state@,
            command_ready: self.command_ready,
        }
    }
}

/// What is told of a context with an identifier.
pub open spec fn summary_of(id: Seq<char>, default: bool, s: ApiStateView) -> SummaryView {
    let d = s.diagnostics;
    SummaryView {
        id,
        default,
        host_library: s.host_library,
        browser: s.browser,
        profile: s.profile,
        profile_path: s.profile_path,
        runtime_state: state_name(state_of(d.runtime, d.active, d.last_failure)),
        command_ready: accepts_commands(d),
    }
}

impl ApiState {
    /// What is told of the context under an identifier.
    pub fn summary(&self, context_id: String, default: bool) -> (res: ContextSummary)
        ensures
            res@ == summary_of(context_id@, default, self@),
    {
        ContextSummary {
            id: context_id,
            default,
            host_library: self.host_library.clone(),
            browser: self.browser.clone(),
            profile: self.profile.clone(),
            runtime_state: self.diagnostics.state().name().to_owned(),
            command_ready: self.diagnostics.accepts_commands(),
        }
    }
}

/// A request to go somewhere.
#[derive(Debug, PartialEq, Eq)]
pub struct NavigateBody {
    pub url: String,
}

/// A request to record a trace.
#[derive(Debug, PartialEq, Eq)]
pub struct TraceBody {
    pub path: String,
}

/// A request for events.
#[derive(Debug, Clone, Copy, PartialEq, Eq)]
pub struct EventQuery {
    pub since: u64,
}

/// A request for events as they come.
#[derive(Debug, Clone, Copy, PartialEq, Eq)]
pub struct EventStreamQuery {
    pub since: u64,
    pub poll_ms: Option<u64>,
}

/// A request for a new context.
#[derive(Debug)]
pub struct CreateContextBody {
    pub id: Option<String>,
    pub profile: Option<String>,
    pub seed_from_context: Option<String>,
    pub mode: Option<BrowserMode>,
    pub start_url: Option<String>,
    pub download_dir: Option<String>,
    pub upload_dir: Option<String>,
}

/// The contents of a `CreateContextBody`.
#[verifier::ext_equal]
pub struct CreateView {
    pub id: Option<Seq<char>>,
    pub profile: Option<Seq<char>>,
    pub seed_from_context: Option<Seq<char>>,
    pub mode: Option<BrowserMode>,
    pub start_url: Option<Seq<char>>,
    pub download_dir: Option<Seq<char>>,
    pub upload_dir: Option<Seq<char>>,
}

impl View for CreateContextBody {
    type V = CreateView;

    open spec fn view(&self) -> CreateView {
        CreateView {
            id: opt_text(self.id),
            profile: opt_text(self.profile),
            seed_from_context: opt_text(self.seed_from_context),
            mode: self.mode,
            start_url: opt_text(self.start_url),
            download_dir: opt_text(self.download_dir),
            upload_dir: opt_text(self.upload_dir),
        }
    }
}

/// A context that is to be made.
#[derive(Debug)]
pub struct ContextPlan {
    pub context_id: String,
    pub profile: String,
    pub browser: BrowserConfig,
    pub seed_from_context: Option<String>,
}

/// The contents of a `ContextPlan`.
#[verifier::ext_equal]
pub struct PlanView {
    pub context_id: Seq<char>,
    pub profile: Seq<char>,
    pub browser: ConfigView,
    pub seed_from_context: Option<Seq<char>>,
}

impl View for ContextPlan {
    type V = PlanView;

    open spec fn view(&self) -> PlanView {
        PlanView {
            context_id: self.context_id@,
            profile: self.profile@,
            browser: self.browser@,
            seed_from_context: opt_text(self.seed_from_context),
        }
    }
}

/// What is wrong with an identifier of a context: it is blank, or holds a character that is
/// not allowed.
pub open spec fn context_name_error(name: Seq<char>) -> Option<Seq<char>> {
    if trimmed(name).len() == 0 {
        Some("context id must not be empty"@)
    } else if !plain_name(name) {
        Some(
            "context id "@ + debug_quoted(name)
                + " must use only letters, numbers, '.', '-', or '_'"@,
        )
    } else {
        None
    }
}

/// The answer to a request that the server refuses for a reason.
pub open spec fn refusal(reason: Seq<char>) -> ApiErrorView {
    error_answer(ErrorView::Bridge(reason), None)
}

fn refuse(reason: String) -> (res: ApiError)
    ensures
        res@ == refusal(reason@),
{
    ApiError::from_error_with(&AegisError::Bridge(reason), None)
}

/// Whether an identifier of a context is allowed; the answer says what is wrong with it.
pub fn validate_context_name(name: &str) -> (res: Result<(), ApiError>)
    ensures
        match res {
            Ok(_) => context_name_error(name@) is None,
            Err(e) => context_name_error(name@) matches Some(reason) && e@ == refusal(reason),
        },
{
    if trim(name).as_str().unicode_len() == 0 {
        return Err(refuse("context id must not be empty".to_owned()));
    }
    if !is_plain_name(name) {
        let quoted = debug_quote(name);
        return Err(
            refuse(
                concat3(
                    "context id ",
                    quoted.as_str(),
                    " must use only letters, numbers, '.', '-', or '_'",
                ),
            ),
        );
    }
    Ok(())
}

/// A context under its identifier.
#[derive(Debug)]
struct ContextEntry {
    id: String,
    state: ApiState,
}

/// The contents of a list of entries.
closed spec fn pairs_of(entries: Seq<ContextEntry>) -> Seq<(Seq<char>, ApiStateView)> {
    Seq::new(entries.len(), |i: int| (entries[i].id@, entries[i].state@))
}

/// Whether a list of entries is in the order of the identifiers.
spec fn ids_rise(pairs: Seq<(Seq<char>, ApiStateView)>) -> bool {
    forall|i: int, j: int| 0 <= i < j < pairs.len() ==> text_less(pairs[i].0, pairs[j].0)
}

proof fn lemma_rising_ids_differ(pairs: Seq<(Seq<char>, ApiStateView)>)
    requires
        ids_rise(pairs),
    ensures
        distinct_keys(pairs),
{
    assert forall|i: int, j: int| 0 <= i < j < pairs.len() implies pairs[i].0 != pairs[j].0 by {
        assert(text_less(pairs[i].0, pairs[j].0));
        lemma_text_less_irreflexive(pairs[i].0);
    }
}

/// The contexts of a server. They are kept in the order of their identifiers.
#[derive(Debug)]
pub struct ServeRootState {
    host_library: String,
    browser: BrowserConfig,
    default_context_id: String,
    entries: Vec<ContextEntry>,
}

/// The contents of a `ServeRootState`.
#[verifier::ext_equal]
pub struct RootView {
    pub host_library: Seq<char>,
    pub browser: ConfigView,
    pub default_id: Seq<char>,
    pub contexts: Map<Seq<char>, ApiStateView>,
}

impl View for ServeRootState {
    type V = RootView;

    closed spec fn view(&self) -> RootView {
        RootView {
            host_library: self.host_library@,
            browser: self.browser@,
            default_id: self.default_context_id@,
            contexts: pairs_map(pairs_of(self.entries@)),
        }
    }
}

/// Whether a list tells of every context of a server once, in the order of the identifiers,
/// and marks the default one.
pub open spec fn is_listing(r: RootView, list: Seq<SummaryView>) -> bool {
    &&& forall|i: int, j: int| 0 <= i < j < list.len() ==> text_less(list[i].id, list[j].id)
    &&& forall|i: int|
        0 <= i < list.len() ==> r.contexts.contains_key(#[trigger] list[i].id) && list[i]
            == summary_of(list[i].id, list[i].id == r.default_id, r.contexts[list[i].id])
    &&& forall|id: Seq<char>| #[trigger]
        r.contexts.contains_key(id) ==> exists|i: int|
            0 <= i < list.len() && #[trigger] list[i].id == id
}

/// The contents of a list of summaries.
pub open spec fn summaries_view(list: Seq<ContextSummary>) -> Seq<SummaryView> {
    Seq::new(list.len(), |i: int| list[i]@)
}

/// The answer to a request for a context that is not there.
pub open spec fn no_such_context(id: Seq<char>) -> ApiErrorView {
    plain_error(NOT_FOUND, "context `"@ + id + "` was not found"@, "not_found"@)
}

/// The identifier that a new context gets: the one asked for, else the profile's name, else
/// one made of the number of contexts there will be.
pub open spec fn chosen_id(body: CreateView, count: nat) -> Seq<char> {
    match body.id {
        Some(id) => id,
        None => match body.profile {
            Some(profile) => profile,
            None => "context-"@ + decimal_text(count + 1),
        },
    }
}

/// The context that a request asks for: where it names nothing, the server's own settings
/// hold.
pub open spec fn planned(r: RootView, body: CreateView, count: nat) -> PlanView {
    let id = chosen_id(body, count);
    PlanView {
        context_id: id,
        profile: match body.profile {
            Some(profile) => profile,
            None => id,
        },
        browser: ConfigView {
            mode: match body.mode {
                Some(mode) => mode,
                None => r.browser.mode,
            },
            start_url: if body.start_url is Some {
                body.start_url
            } else {
                r.browser.start_url
            },
            download_dir: if body.download_dir is Some {
                body.download_dir
            } else {
                r.browser.download_dir
            },
            upload_dir: if body.upload_dir is Some {
                body.upload_dir
            } else {
                r.browser.upload_dir
            },
        },
        seed_from_context: body.seed_from_context,
    }
}

/// Why a new context is refused, if it is: its identifier is not allowed or is taken.
pub open spec fn creation_error(r: RootView, id: Seq<char>) -> Option<Seq<char>> {
    match context_name_error(id) {
        Some(reason) => Some(reason),
        None => if r.contexts.contains_key(id) {
            Some("context `"@ + id + "` already exists"@)
        } else {
            None
        },
    }
}

impl ServeRootState {
    #[verifier::type_invariant]
    closed spec fn inv(&self) -> bool {
        ids_rise(pairs_of(self.entries@))
    }

    /// A server with one context, the default one.
    pub fn new(
        host_library: String,
        browser: BrowserConfig,
        default_context_id: String,
        state: ApiState,
    ) -> (res: Self)
        ensures
            res@ == (RootView {
                host_library: host_library@,
                browser: browser@,
                default_id: default_context_id@,
                contexts: Map::empty().insert(default_context_id@, state@),
            }),
    {
        let ghost id = default_context_id@;
        let ghost s = state@;
        let mut entries: Vec<ContextEntry> = Vec::new();
        entries.push(ContextEntry { id: default_context_id.clone(), state });
        proof {
            let pairs = pairs_of(entries@);
            assert(pairs =~= seq![(id, s)]);
            assert(pairs.drop_last() =~= Seq::empty());
            assert(pairs_map(pairs.drop_last()) =~= Map::empty());
        }
        ServeRootState { host_library, browser, default_context_id, entries }
    }

    /// The number of contexts.
    pub fn len(&self) -> (res: usize)
        ensures
            res == self@.contexts.dom().len(),
            self@.contexts.dom().finite(),
    {
        proof {
            use_type_invariant(self);
            lemma_rising_ids_differ(pairs_of(self.entries@));
            lemma_pairs_map_size(pairs_of(self.entries@));
        }
        self.entries.len()
    }

    fn position(&self, id: &str) -> (res: Option<usize>)
        ensures
            match res {
                Some(i) => i < self.entries@.len() && self.entries@[i as int].id@ == id@
                    && self@.contexts.contains_key(id@) && self@.contexts[id@]
                    == self.entries@[i as int].state@,
                None => !self@.contexts.contains_key(id@),
            },
    {
        let ghost pairs = pairs_of(self.entries@);
        proof {
            use_type_invariant(self);
            lemma_rising_ids_differ(pairs);
            lemma_pairs_map_domain(pairs);
        }
        let mut i: usize = 0;
        while i < self.entries.len()
            invariant
                i <= self.entries@.len(),
                pairs == pairs_of(self.entries@),
                distinct_keys(pairs),
                forall|j: int| 0 <= j < i ==> (#[trigger] pairs[j]).0 != id@,
            decreases self.entries@.len() - i,
        {
            assert(pairs[i as int].0 == self.entries@[i as int].id@);
            if str_eq(self.entries[i].id.as_str(), id) {
                proof {
                    lemma_pairs_map_values(pairs);
                    assert(pairs_map(pairs).contains_key(pairs[i as int].0));
                }
                return Some(i);
            }
            i += 1;
        }
        None
    }

    /// The context with an identifier, if there is one.
    pub fn context_state(&self, context_id: &str) -> (res: Option<&ApiState>)
        ensures
            match res {
                Some(s) => self@.contexts.contains_key(context_id@)
                    && self@.contexts[context_id@] == s@,
                None => !self@.contexts.contains_key(context_id@),
            },
    {
        match self.position(context_id) {
            Some(i) => Some(&self.entries[i].state),
            None => None,
        }
    }

    /// The default context, if it is still there.
    pub fn default_context_state(&self) -> (res: Option<&ApiState>)
        ensures
            match res {
                Some(s) => self@.contexts.contains_key(self@.default_id)
                    && self@.contexts[self@.default_id] == s@,
                None => !self@.contexts.contains_key(self@.default_id),
            },
    {
        self.context_state(self.default_context_id.as_str())
    }

    /// The identifier of the default context.
    pub fn default_context_id(&self) -> (res: &str)
        ensures
            res@ == self@.default_id,
    {
        self.default_context_id.as_str()
    }

    /// Adds a context, or replaces the one with its identifier.
    pub fn insert_context(&mut self, context_id: String, state: ApiState)
        ensures
            final(self)@ == (RootView {
                contexts: old(self)@.contexts.insert(context_id@, state@),
                ..old(self)@
            }),
    {
        let ghost before = pairs_of(self.entries@);
        let ghost id = context_id@;
        let ghost s = state@;
        proof {
            use_type_invariant(&*self);
            lemma_rising_ids_differ(before);
            lemma_pairs_map_domain(before);
            lemma_pairs_map_values(before);
        }
        let mut at: usize = 0;
        while at < self.entries.len() && str_less(
            self.entries[at].id.as_str(),
            context_id.as_str(),
        )
            invariant
                at <= self.entries@.len(),
                before == pairs_of(self.entries@),
                id == context_id@,
                forall|j: int| 0 <= j < at ==> text_less((#[trigger] before[j]).0, id),
            decreases self.entries@.len() - at,
        {
            assert(before[at as int].0 == self.entries@[at as int].id@);
            at += 1;
        }
        let present = at < self.entries.len() && str_eq(
            self.entries[at].id.as_str(),
            context_id.as_str(),
        );
        let mut entries: Vec<ContextEntry> = Vec::new();
        std::mem::swap(&mut entries, &mut self.entries);
        if present {
            entries[at] = ContextEntry { id: context_id, state };
        } else {
            entries.insert(at, ContextEntry { id: context_id, state });
        }
        let ghost after = pairs_of(entries@);
        proof {
            let a = at as int;
            if present {
                assert(before[a].0 == id);
                assert(after =~= before.update(a, (id, s)));
            } else {
                if a < before.len() {
                    lemma_text_less_total(before[a].0, id);
                }
                assert(after =~= before.insert(a, (id, s)));
            }
            lemma_insert_keeps_order(before, a, (id, s), present);
            lemma_rising_ids_differ(after);
            let m = pairs_map(before).insert(id, s);
            let shift = |i: int|
                if i < a || present {
                    i
                } else {
                    i + 1
                };
            assert forall|x: Seq<char>|
                m.contains_key(x) <==> exists|i: int|
                    0 <= i < after.len() && #[trigger] after[i].0 == x by {
                if m.contains_key(x) {
                    if x == id {
                        assert(after[a].0 == x);
                    } else {
                        let i = choose|i: int| 0 <= i < before.len() && #[trigger] before[i].0 == x;
                        assert(after[shift(i)].0 == x);
                    }
                }
                if exists|i: int| 0 <= i < after.len() && #[trigger] after[i].0 == x {
                    let i = choose|i: int| 0 <= i < after.len() && #[trigger] after[i].0 == x;
                    if i < a || (present && i > a) {
                        assert(before[i].0 == x);
                    } else if i > a {
                        assert(before[i - 1].0 == x);
                    }
                }
            }
            assert forall|i: int| 0 <= i < after.len() implies m[#[trigger] after[i].0]
                == after[i].1 by {
                if i != a {
                    assert(after[i].0 != after[a].0) by {
                        if i < a {
                            assert(distinct_keys(after));
                        }
                    }
                    let k = if i < a || present {
                        i
                    } else {
                        i - 1
                    };
                    assert(before[k] == after[i]);
                }
            }
            lemma_pairs_map_unique(after, m);
        }
        self.entries = entries;
    }

    /// Removes a context, if it is there.
    pub fn remove_context(&mut self, context_id: &str) -> (res: Option<ApiState>)
        ensures
            final(self)@ == (RootView {
                contexts: old(self)@.contexts.remove(context_id@),
                ..old(self)@
            }),
            match res {
                Some(s) => old(self)@.contexts.contains_key(context_id@)
                    && old(self)@.contexts[context_id@] == s@,
                None => !old(self)@.contexts.contains_key(context_id@),
            },
    {
        let ghost before = pairs_of(self.entries@);
        let ghost id = context_id@;
        proof {
            use_type_invariant(&*self);
            lemma_rising_ids_differ(before);
            lemma_pairs_map_domain(before);
            lemma_pairs_map_values(before);
        }
        match self.position(context_id) {
            None => {
                assert(self@.contexts.remove(id) =~= self@.contexts);
                None
            },
            Some(at) => {
                let mut entries: Vec<ContextEntry> = Vec::new();
                std::mem::swap(&mut entries, &mut self.entries);
                let taken = entries.remove(at);
                let ghost after = pairs_of(entries@);
                proof {
                    let a = at as int;
                    assert(before[a].0 == id);
                    assert(after =~= before.remove(a));
                    assert forall|i: int, j: int| 0 <= i < j < after.len() implies text_less(
                        after[i].0,
                        after[j].0,
                    ) by {
                        let p = if i < a {
                            i
                        } else {
                            i + 1
                        };
                        let q = if j < a {
                            j
                        } else {
                            j + 1
                        };
                        assert(text_less(before[p].0, before[q].0));
                    }
                    lemma_rising_ids_differ(after);
                    let m = pairs_map(before).remove(id);
                    assert forall|x: Seq<char>|
                        m.contains_key(x) <==> exists|i: int|
                            0 <= i < after.len() && #[trigger] after[i].0 == x by {
                        if m.contains_key(x) {
                            let i = choose|i: int|
                                0 <= i < before.len() && #[trigger] before[i].0 == x;
                            let k = if i < a {
                                i
                            } else {
                                i - 1
                            };
                            assert(after[k].0 == x);
                        }
                        if exists|i: int| 0 <= i < after.len() && #[trigger] after[i].0 == x {
                            let i = choose|i: int|
                                0 <= i < after.len() && #[trigger] after[i].0 == x;
                            let k = if i < a {
                                i
                            } else {
                                i + 1
                            };
                            assert(before[k].0 == x);
                            assert(before[k].0 != before[a].0);
                        }
                    }
                    assert forall|i: int| 0 <= i < after.len() implies m[#[trigger] after[i].0]
                        == after[i].1 by {
                        let k = if i < a {
                            i
                        } else {
                            i + 1
                        };
                        assert(before[k] == after[i]);
                        assert(before[k].0 != before[a].0);
                    }
                    lemma_pairs_map_unique(after, m);
                }
                self.entries = entries;
                Some(taken.state)
            },
        }
    }

    /// Removes all contexts.
    pub fn clear(&mut self)
        ensures
            final(self)@ == (RootView { contexts: Map::empty(), ..old(self)@ }),
    {
        let entries: Vec<ContextEntry> = Vec::new();
        assert(pairs_of(entries@) =~= Seq::empty());
        self.entries = entries;
    }

    /// Takes in something that happened to a context; nothing is done where the context is
    /// not there, or one of its counters is at its end.
    pub fn record(&mut self, context_id: &str, change: DiagnosticsChange)
        ensures
            final(self)@ == (RootView {
                contexts: recorded(old(self)@.contexts, context_id@, change),
                ..old(self)@
            }),
    {
        match self.position(context_id) {
            None => {},
            Some(at) => {
                if !self.entries[at].state.diagnostics.counters_run() {
                    return;
                }
                let found = self.remove_context(context_id);
                if let Some(state) = found {
                    let mut state = state;
                    let ghost before = state@;
                    state.diagnostics.apply(change);
                    self.insert_context(context_id.to_owned(), state);
                    assert(self@.contexts =~= recorded(old(self)@.contexts, context_id@, change));
                }
            },
        }
    }

    /// All contexts, in the order of their identifiers.
    pub fn list_contexts(&self) -> (res: Vec<ContextSummary>)
        ensures
            is_listing(self@, summaries_view(res@)),
    {
        let ghost pairs = pairs_of(self.entries@);
        proof {
            use_type_invariant(self);
            lemma_rising_ids_differ(pairs);
            lemma_pairs_map_domain(pairs);
            lemma_pairs_map_values(pairs);
        }
        let mut out: Vec<ContextSummary> = Vec::new();
        let mut i: usize = 0;
        while i < self.entries.len()
            invariant
                i <= self.entries@.len(),
                pairs == pairs_of(self.entries@),
                out@.len() == i,
                forall|j: int|
                    0 <= j < i ==> (#[trigger] out@[j])@ == summary_of(
                        pairs[j].0,
                        pairs[j].0 == self@.default_id,
                        pairs[j].1,
                    ),
            decreases self.entries@.len() - i,
        {
            let entry = &self.entries[i];
            assert(pairs[i as int] == (entry.id@, entry.state@));
            let default = str_eq(entry.id.as_str(), self.default_context_id.as_str());
            out.push(entry.state.summary(entry.id.clone(), default));
            i += 1;
        }
        proof {
            let list = summaries_view(out@);
            assert forall|a: int, b: int| 0 <= a < b < list.len() implies text_less(
                list[a].id,
                list[b].id,
            ) by {
                assert(text_less(pairs[a].0, pairs[b].0));
                assert(list[a] == out@[a]@);
                assert(list[b] == out@[b]@);
            }
            assert forall|a: int|
                0 <= a < list.len() implies self@.contexts.contains_key(#[trigger] list[a].id)
                && list[a] == summary_of(
                list[a].id,
                list[a].id == self@.default_id,
                self@.contexts[list[a].id],
            ) by {
                assert(list[a] == out@[a]@);
                assert(self@.contexts.contains_key(pairs[a].0));
            }
            assert forall|id: Seq<char>| #[trigger]
                self@.contexts.contains_key(id) implies exists|a: int|
                0 <= a < list.len() && #[trigger] list[a].id == id by {
                let a = choose|a: int| 0 <= a < pairs.len() && #[trigger] pairs[a].0 == id;
                assert(list[a] == out@[a]@);
                assert(list[a].id == id);
            }
        }
        out
    }

    /// The context with an identifier; where there is none, the request is answered so.
    pub fn get_context(&self, context_id: &str) -> (res: Result<ContextSummary, ApiError>)
        ensures
            match res {
                Ok(s) => self@.contexts.contains_key(context_id@) && s@ == summary_of(
                    context_id@,
                    context_id@ == self@.default_id,
                    self@.contexts[context_id@],
                ),
                Err(e) => !self@.contexts.contains_key(context_id@) && e@ == no_such_context(
                    context_id@,
                ),
            },
    {
        let state = self.require_context_state(context_id)?;
        let default = str_eq(context_id, self.default_context_id.as_str());
        Ok(state.summary(context_id.to_owned(), default))
    }

    /// The default context; where it is gone, the request is refused.
    pub fn require_default_context_state(&self) -> (res: Result<&ApiState, ApiError>)
        ensures
            match res {
                Ok(s) => self@.contexts.contains_key(self@.default_id)
                    && self@.contexts[self@.default_id] == s@,
                Err(e) => !self@.contexts.contains_key(self@.default_id) && e@ == refusal(
                    "default context unavailable"@,
                ),
            },
    {
        match self.default_context_state() {
            Some(s) => Ok(s),
            None => Err(refuse("default context unavailable".to_owned())),
        }
    }

    /// The context with an identifier; where there is none, the request is answered so.
    pub fn require_context_state(&self, context_id: &str) -> (res: Result<&ApiState, ApiError>)
        ensures
            match res {
                Ok(s) => self@.contexts.contains_key(context_id@)
                    && self@.contexts[context_id@] == s@,
                Err(e) => !self@.contexts.contains_key(context_id@) && e@ == no_such_context(
                    context_id@,
                ),
            },
    {
        match self.context_state(context_id) {
            Some(s) => Ok(s),
            None => Err(
                ApiError::not_found(concat3("context `", context_id, "` was not found")),
            ),
        }
    }

    /// The context that a request asks for, or why it is refused.
    pub fn create_context(&self, body: CreateContextBody) -> (res: Result<ContextPlan, ApiError>)
        requires
            self@.contexts.dom().len() < usize::MAX,
        ensures
            ({
                let count = self@.contexts.dom().len();
                let id = chosen_id(body@, count);
                match res {
                    Ok(plan) => creation_error(self@, id) is None && plan@ == planned(
                        self@,
                        body@,
                        count,
                    ),
                    Err(e) => creation_error(self@, id) matches Some(reason) && e@ == refusal(
                        reason,
                    ),
                }
            }),
    {
        let count: usize = self.len();
        let context_id = match &body.id {
            Some(id) => id.clone(),
            None => match &body.profile {
                Some(profile) => profile.clone(),
                None => {
                    let number = decimal((count + 1) as u64);
                    concat2("context-", number.as_str())
                },
            },
        };
        validate_context_name(context_id.as_str())?;
        if self.position(context_id.as_str()).is_some() {
            return Err(
                refuse(concat3("context `", context_id.as_str(), "` already exists")),
            );
        }
        let profile = match body.profile {
            Some(profile) => profile,
            None => context_id.clone(),
        };
        let mut browser = self.browser.clone();
        if let Some(mode) = body.mode {
            browser.mode = mode;
        }
        if body.start_url.is_some() {
            browser.start_url = body.start_url;
        }
        if body.download_dir.is_some() {
            browser.download_dir = body.download_dir;
        }
        if body.upload_dir.is_some() {
            browser.upload_dir = body.upload_dir;
        }
        Ok(ContextPlan { context_id, profile, browser, seed_from_context: body.seed_from_context })
    }

    /// Adds a context that was made as planned, and tells of it.
    pub fn register_context(&mut self, context_id: String, state: ApiState) -> (res: ContextSummary)
        ensures
            res@ == summary_of(context_id@, false, state@),
            final(self)@ == (RootView {
                contexts: old(self)@.contexts.insert(context_id@, state@),
                ..old(self)@
            }),
    {
        let summary = state.summary(context_id.clone(), false);
        self.insert_context(context_id, state);
        summary
    }

    /// Whether a context may be deleted, or why not: the default one stays.
    pub fn delete_context(&self, context_id: &str) -> (res: Result<(), ApiError>)
        ensures
            match res {
                Ok(_) => context_id@ != self@.default_id && self@.contexts.contains_key(
                    context_id@,
                ),
                Err(e) => if context_id@ == self@.default_id {
                    e@ == refusal("default context cannot be deleted"@)
                } else {
                    !self@.contexts.contains_key(context_id@) && e@ == no_such_context(context_id@)
                },
            },
    {
        if str_eq(context_id, self.default_context_id.as_str()) {
            return Err(refuse("default context cannot be deleted".to_owned()));
        }
        match self.require_context_state(context_id) {
            Ok(_) => Ok(()),
            Err(e) => Err(e),
        }
    }
}

/// The contexts after something happened to one of them.
pub open spec fn recorded(
    contexts: Map<Seq<char>, ApiStateView>,
    id: Seq<char>,
    change: DiagnosticsChange,
) -> Map<Seq<char>, ApiStateView> {
    if contexts.contains_key(id) && counters_run(contexts[id].diagnostics) {
        contexts.insert(
            id,
            ApiStateView {
                diagnostics: changed(contexts[id].diagnostics, change),
                ..contexts[id]
            },
        )
    } else {
        contexts
    }
}

/// The error for a context that was to be seeded from one that is not running.
pub fn seed_error(source_context_id: &str) -> (res: AegisError)
    ensures
        res@ == ErrorView::Bridge(
            "context `"@ + source_context_id@ + "` is not available for seeding"@,
        ),
{
    AegisError::Bridge(
        concat3("context `", source_context_id, "` is not available for seeding"),
    )
}

/// A map of pairs with distinct keys has as many keys as there are pairs.
proof fn lemma_pairs_map_size(pairs: Seq<(Seq<char>, ApiStateView)>)
    requires
        distinct_keys(pairs),
    ensures
        pairs_map(pairs).dom().finite(),
        pairs_map(pairs).dom().len() == pairs.len(),
    decreases pairs.len(),
{
    if pairs.len() > 0 {
        let init = pairs.drop_last();
        assert(distinct_keys(init)) by {
            assert forall|i: int, j: int| 0 <= i < j < init.len() implies init[i].0
                != init[j].0 by {
                assert(pairs[i].0 != pairs[j].0);
            }
        }
        lemma_pairs_map_size(init);
        lemma_pairs_map_domain(init);
        assert(!pairs_map(init).contains_key(pairs.last().0)) by {
            if pairs_map(init).contains_key(pairs.last().0) {
                let i = choose|i: int| 0 <= i < init.len() && #[trigger] init[i].0 == pairs.last().0;
                assert(pairs[i].0 != pairs[pairs.len() - 1].0);
            }
        }
        assert(pairs_map(pairs).dom() =~= pairs_map(init).dom().insert(pairs.last().0));
    }
}

/// Putting an entry at its place keeps the order.
proof fn lemma_insert_keeps_order(
    before: Seq<(Seq<char>, ApiStateView)>,
    at: int,
    entry: (Seq<char>, ApiStateView),
    present: bool,
)
    requires
        ids_rise(before),
        0 <= at <= before.len(),
        present ==> at < before.len() && before[at].0 == entry.0,
        forall|j: int| 0 <= j < at ==> text_less((#[trigger] before[j]).0, entry.0),
        !present && at < before.len() ==> text_less(entry.0, before[at].0),
    ensures
        ids_rise(
            if present {
                before.update(at, entry)
            } else {
                before.insert(at, entry)
            },
        ),
{
    let after = if present {
        before.update(at, entry)
    } else {
        before.insert(at, entry)
    };
    assert forall|i: int, j: int| 0 <= i < j < after.len() implies text_less(
        after[i].0,
        after[j].0,
    ) by {
        if present {
            assert(text_less(before[i].0, before[j].0));
        } else {
            let p = if i < at {
                i
            } else {
                i - 1
            };
            let q = if j < at {
                j
            } else {
                j - 1
            };
            if i != at && j != at {
                assert(text_less(before[p].0, before[q].0));
            } else if i == at {
                if q > at {
                    assert(text_less(before[at].0, before[q].0));
                    lemma_text_less_transitive(entry.0, before[at].0, before[q].0);
                }
            }
        }
    }
}

/// There is only one list that tells of the contexts of a server.
pub proof fn law_listing_unique(r: RootView, a: Seq<SummaryView>, b: Seq<SummaryView>)
    requires
        is_listing(r, a),
        is_listing(r, b),
    ensures
        a == b,
{
    lemma_listing_prefix(r, a, b, a.len() as int);
    lemma_listing_prefix(r, b, a, b.len() as int);
    assert(a.take(a.len() as int) =~= a);
    assert(b.take(b.len() as int) =~= b);
    assert(b.take(a.len() as int) =~= b);
}

/// The first entries of one list are those of another.
proof fn lemma_listing_prefix(r: RootView, a: Seq<SummaryView>, b: Seq<SummaryView>, n: int)
    requires
        is_listing(r, a),
        is_listing(r, b),
        0 <= n <= a.len(),
    ensures
        n <= b.len(),
        a.take(n) == b.take(n),
    decreases n,
{
    if n > 0 {
        lemma_listing_prefix(r, a, b, n - 1);
        let id = a[n - 1].id;
        assert(r.contexts.contains_key(id));
        let k = choose|k: int| 0 <= k < b.len() && #[trigger] b[k].id == id;
        if k < n - 1 {
            assert(a.take(n - 1)[k] == b.take(n - 1)[k]);
            assert(text_less(a[k].id, a[n - 1].id));
            lemma_text_less_irreflexive(id);
        }
        if k > n - 1 {
            let other = b[n - 1].id;
            assert(r.contexts.contains_key(other));
            assert(text_less(other, id));
            let h = choose|h: int| 0 <= h < a.len() && #[trigger] a[h].id == other;
            if h < n - 1 {
                assert(a.take(n - 1)[h] == b.take(n - 1)[h]);
                assert(text_less(b[h].id, b[n - 1].id));
                lemma_text_less_irreflexive(other);
            } else {
                if h > n - 1 {
                    assert(text_less(a[n - 1].id, a[h].id));
                    lemma_text_less_transitive(id, other, id);
                }
                lemma_text_less_irreflexive(id);
            }
        }
        assert(b[n - 1].id == id);
        assert(a[n - 1] == b[n - 1]);
        assert(a.take(n) =~= a.take(n - 1).push(a[n - 1]));
        assert(b.take(n) =~= b.take(n - 1).push(b[n - 1]));
    }
}

/// A context that was made as planned is found under its identifier, and the contexts there
/// were before are unchanged.
pub proof fn law_created_context_is_listed(
    r: RootView,
    body: CreateView,
    state: ApiStateView,
    other: Seq<char>,
)
    requires
        creation_error(r, chosen_id(body, r.contexts.dom().len())) is None,
        other != planned(r, body, r.contexts.dom().len()).context_id,
    ensures
        ({
            let id = planned(r, body, r.contexts.dom().len()).context_id;
            let after = r.contexts.insert(id, state);
            &&& !r.contexts.contains_key(id)
            &&& after.contains_key(id)
            &&& after[id] == state
            &&& after.contains_key(other) == r.contexts.contains_key(other)
            &&& r.contexts.contains_key(other) ==> after[other] == r.contexts[other]
        }),
{
}

/// What happens to one context leaves the others as they are.
pub proof fn law_contexts_are_separate(
    contexts: Map<Seq<char>, ApiStateView>,
    id: Seq<char>,
    change: DiagnosticsChange,
    other: Seq<char>,
)
    requires
        other != id,
    ensures
        recorded(contexts, id, change).contains_key(other) == contexts.contains_key(other),
        contexts.contains_key(other) ==> recorded(contexts, id, change)[other] == contexts[other],
{
}

/// A summary tells of a context what it runs with and how it fares.
pub proof fn law_summary_tells_the_context(id: Seq<char>, default: bool, s: ApiStateView)
    ensures
        ({
            let x = summary_of(id, default, s);
            let d = s.diagnostics;
            &&& x.id == id && x.default == default
            &&& x.host_library == s.host_library && x.browser == s.browser
            &&& x.profile == s.profile && x.profile_path == s.profile_path
            &&& x.runtime_state == state_name(state_of(d.runtime, d.active, d.last_failure))
            &&& x.command_ready == accepts_commands(d)
        }),
{
}

/// A new context has the name that is asked for, or else that of its profile, or else one by the
/// number of contexts; its profile is the one that is asked for or else its own name; and what is
/// not asked for of its browser is as for all.
pub proof fn law_planned_context(r: RootView, body: CreateView, count: nat)
    ensures
        ({
            let p = planned(r, body, count);
            &&& body.id is Some ==> p.context_id == body.id->Some_0
            &&& body.id is None && body.profile is Some ==> p.context_id == body.profile->Some_0
            &&& body.id is None && body.profile is None ==> p.context_id == "context-"@
                + decimal_text(count + 1)
            &&& body.profile is Some ==> p.profile == body.profile->Some_0
            &&& body.profile is None ==> p.profile == p.context_id
            &&& p.seed_from_context == body.seed_from_context
            &&& body.mode is Some ==> p.browser.mode == body.mode->Some_0
            &&& body.mode is None ==> p.browser.mode == r.browser.mode
            &&& body.start_url is Some ==> p.browser.start_url == body.start_url
            &&& body.start_url is None ==> p.browser.start_url == r.browser.start_url
            &&& body.download_dir is Some ==> p.browser.download_dir == body.download_dir
            &&& body.download_dir is None ==> p.browser.download_dir == r.browser.download_dir
            &&& body.upload_dir is Some ==> p.browser.upload_dir == body.upload_dir
            &&& body.upload_dir is None ==> p.browser.upload_dir == r.browser.upload_dir
            &&& p.context_id == chosen_id(body, count)
        }),
{
}

/// A context is created exactly when its name is not blank, plain and not taken; else the reason is
/// told. Asking for a context that is not there is answered as not found.
pub proof fn law_refused_contexts(r: RootView, id: Seq<char>)
    ensures
        creation_error(r, id) is None <==> trimmed(id).len() > 0 && plain_name(id)
            && !r.contexts.contains_key(id),
        trimmed(id).len() == 0 ==> creation_error(r, id) == Some("context id must not be empty"@),
        trimmed(id).len() > 0 && !plain_name(id) ==> creation_error(r, id) == Some(
            "context id "@ + debug_quoted(id)
                + " must use only letters, numbers, '.', '-', or '_'"@,
        ),
        trimmed(id).len() > 0 && plain_name(id) && r.contexts.contains_key(id) ==> creation_error(
            r,
            id,
        ) == Some("context `"@ + id + "` already exists"@),
        no_such_context(id).status == 404,
        no_such_context(id).error == "context `"@ + id + "` was not found"@,
        no_such_context(id).code == "not_found"@,
{
}

/// What is recorded of a context changes its diagnostics as they change and nothing else of it, and
/// no other context.
pub proof fn law_recorded_for_one_context(
    contexts: Map<Seq<char>, ApiStateView>,
    id: Seq<char>,
    change: DiagnosticsChange,
    other: Seq<char>,
)
    ensures
        ({
            let after = recorded(contexts, id, change);
            &&& after.contains_key(other) == contexts.contains_key(other)
            &&& other != id && contexts.contains_key(other) ==> after[other] == contexts[other]
            &&& contexts.contains_key(id) ==> {
                let s = contexts[id];
                &&& counters_run(s.diagnostics) ==> after[id] == (ApiStateView {
                    diagnostics: changed(s.diagnostics, change),
                    ..s
                })
                &&& !counters_run(s.diagnostics) ==> after[id] == s
            }
        }),
        match change {
            DiagnosticsChange::Begin { name, stage, now_ms, tick_ms } => forall|d: DiagnosticsView|
             #[trigger]
                changed(d, change) == crate::api::diagnostics::begun(
                    d,
                    name@,
                    stage@,
                    now_ms,
                    tick_ms,
                ),
            DiagnosticsChange::Succeed { runtime } => forall|d: DiagnosticsView| #[trigger]
                changed(d, change) == crate::api::diagnostics::succeeded(d, runtime@),
            DiagnosticsChange::Fail { failure, runtime } => forall|d: DiagnosticsView| #[trigger]
                changed(d, change) == crate::api::diagnostics::failed(d, failure@, runtime@),
            DiagnosticsChange::Overdue { operation, elapsed_ms, now_ms } => forall|
                d: DiagnosticsView,
            | #[trigger]
                changed(d, change) == crate::api::diagnostics::overdue(
                    d,
                    operation@,
                    elapsed_ms,
                    now_ms,
                ),
            DiagnosticsChange::Refresh { runtime } => forall|d: DiagnosticsView| #[trigger]
                changed(d, change) == crate::api::diagnostics::refreshed(d, runtime@),
            DiagnosticsChange::CancelAsked => forall|d: DiagnosticsView| #[trigger]
                changed(d, change) == crate::api::diagnostics::cancel_asked(d),
        },
{
}

/// A refusal is answered as a failure of the gateway, with the reason.
pub proof fn law_refusals_tell_the_reason(reason: Seq<char>)
    ensures
        refusal(reason).status == 502,
        refusal(reason).error == "bridge error: "@ + reason,
        refusal(reason).code == "aegis_error"@,
{
}

} // verus!
