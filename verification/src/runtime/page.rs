//! What the page says of itself.

use vstd::prelude::*;

use crate::events::wire::{
    get_bool, get_listed_opt_text, get_texts, get_usize, read_bool, read_listed_opt_text,
    read_texts, read_usize,
};
use crate::json::{record_field, record_shape, write_json, written_json, JsonValue, JsonView};
use crate::text::{clone_opt, clone_texts, concat2, concat3, opt_text, texts};
use crate::transport::bridge::{AegisError, ErrorView};

verus! {

/// How far a page has come in starting its own scripts.
#[derive(Debug, PartialEq, Eq)]
pub struct PageBootstrapDiagnostics {
    pub document_loaded: bool,
    pub document_loaded_at_ms: Option<u64>,
    pub module_scripts_present: bool,
    pub module_script_count: usize,
    pub module_script_sources: Vec<String>,
    pub synthetic_shell_active: bool,
    pub root_selector: Option<String>,
    pub root_present: bool,
    pub root_child_element_count: usize,
    pub root_text_length: usize,
    pub root_html_length: usize,
    pub body_text_length: usize,
    pub body_descendant_count: usize,
    pub dom_mutation_count: usize,
    pub app_dom_mutated_after_load: bool,
    pub body_mutation_after_load_count: usize,
    pub root_mutation_after_load_count: usize,
    pub module_bootstrap_observed: bool,
    pub inspectable_dom_ready: bool,
    pub script_error_count: usize,
    pub last_script_error: Option<String>,
    pub unhandled_rejection_count: usize,
    pub last_unhandled_rejection: Option<String>,
}

/// The contents of a `PageBootstrapDiagnostics`.
#[verifier::ext_equal]
pub struct BootstrapView {
    pub document_loaded: bool,
    pub document_loaded_at_ms: Option<u64>,
    pub module_scripts_present: bool,
    pub module_script_count: usize,
    pub module_script_sources: Seq<Seq<char>>,
    pub synthetic_shell_active: bool,
    pub root_selector: Option<Seq<char>>,
    pub root_present: bool,
    pub root_child_element_count: usize,
    pub root_text_length: usize,
    pub root_html_length: usize,
    pub body_text_length: usize,
    pub body_descendant_count: usize,
    pub dom_mutation_count: usize,
    pub app_dom_mutated_after_load: bool,
    pub body_mutation_after_load_count: usize,
    pub root_mutation_after_load_count: usize,
    pub module_bootstrap_observed: bool,
    pub inspectable_dom_ready: bool,
    pub script_error_count: usize,
    pub last_script_error: Option<Seq<char>>,
    pub unhandled_rejection_count: usize,
    pub last_unhandled_rejection: Option<Seq<char>>,
}

impl View for PageBootstrapDiagnostics {
    type V = BootstrapView;

    open spec fn view(&self) -> BootstrapView {
        BootstrapView {
            document_loaded: self.document_loaded,
            document_loaded_at_ms: self.document_loaded_at_ms,
            module_scripts_present: self.module_scripts_present,
            module_script_count: self.module_script_count,
            module_script_sources: texts(self.module_script_sources@),
            synthetic_shell_active: self.synthetic_shell_active,
            root_selector: opt_text(self.root_selector),
            root_present: self.root_present,
            root_child_element_count: self.root_child_element_count,
            root_text_length: self.root_text_length,
            root_html_length: self.root_html_length,
            body_text_length: self.body_text_length,
            body_descendant_count: self.body_descendant_count,
            dom_mutation_count: self.dom_mutation_count,
            app_dom_mutated_after_load: self.app_dom_mutated_after_load,
            body_mutation_after_load_count: self.body_mutation_after_load_count,
            root_mutation_after_load_count: self.root_mutation_after_load_count,
            module_bootstrap_observed: self.module_bootstrap_observed,
            inspectable_dom_ready: self.inspectable_dom_ready,
            script_error_count: self.script_error_count,
            last_script_error: opt_text(self.last_script_error),
            unhandled_rejection_count: self.unhandled_rejection_count,
            last_unhandled_rejection: opt_text(self.last_unhandled_rejection),
        }
    }
}

/// The diagnostics of a page that says nothing.
pub open spec fn no_bootstrap() -> BootstrapView {
    BootstrapView {
        document_loaded: false,
        document_loaded_at_ms: None,
        module_scripts_present: false,
        module_script_count: 0,
        module_script_sources: Seq::empty(),
        synthetic_shell_active: false,
        root_selector: None,
        root_present: false,
        root_child_element_count: 0,
        root_text_length: 0,
        root_html_length: 0,
        body_text_length: 0,
        body_descendant_count: 0,
        dom_mutation_count: 0,
        app_dom_mutated_after_load: false,
        body_mutation_after_load_count: 0,
        root_mutation_after_load_count: 0,
        module_bootstrap_observed: false,
        inspectable_dom_ready: false,
        script_error_count: 0,
        last_script_error: None,
        unhandled_rejection_count: 0,
        last_unhandled_rejection: None,
    }
}

impl Default for PageBootstrapDiagnostics {
    fn default() -> (res: Self)
        ensures
            res@ == no_bootstrap(),
    {
        let sources: Vec<String> = Vec::new();
        assert(texts(sources@) =~= Seq::<Seq<char>>::empty());
        PageBootstrapDiagnostics {
            document_loaded: false,
            document_loaded_at_ms: None,
            module_scripts_present: false,
            module_script_count: 0,
            module_script_sources: sources,
            synthetic_shell_active: false,
            root_selector: None,
            root_present: false,
            root_child_element_count: 0,
            root_text_length: 0,
            root_html_length: 0,
            body_text_length: 0,
            body_descendant_count: 0,
            dom_mutation_count: 0,
            app_dom_mutated_after_load: false,
            body_mutation_after_load_count: 0,
            root_mutation_after_load_count: 0,
            module_bootstrap_observed: false,
            inspectable_dom_ready: false,
            script_error_count: 0,
            last_script_error: None,
            unhandled_rejection_count: 0,
            last_unhandled_rejection: None,
        }
    }
}

impl Clone for PageBootstrapDiagnostics {
    fn clone(&self) -> (res: Self)
        ensures
            res@ == self@,
    {
        PageBootstrapDiagnostics {
            document_loaded: self.document_loaded,
            document_loaded_at_ms: self.document_loaded_at_ms,
            module_scripts_present: self.module_scripts_present,
            module_script_count: self.module_script_count,
            module_script_sources: clone_texts(&self.module_script_sources),
            synthetic_shell_active: self.synthetic_shell_active,
            root_selector: clone_opt(&self.root_selector),
            root_present: self.root_present,
            root_child_element_count: self.root_child_element_count,
            root_text_length: self.root_text_length,
            root_html_length: self.root_html_length,
            body_text_length: self.body_text_length,
            body_descendant_count: self.body_descendant_count,
            dom_mutation_count: self.dom_mutation_count,
            app_dom_mutated_after_load: self.app_dom_mutated_after_load,
            body_mutation_after_load_count: self.body_mutation_after_load_count,
            root_mutation_after_load_count: self.root_mutation_after_load_count,
            module_bootstrap_observed: self.module_bootstrap_observed,
            inspectable_dom_ready: self.inspectable_dom_ready,
            script_error_count: self.script_error_count,
            last_script_error: clone_opt(&self.last_script_error),
            unhandled_rejection_count: self.unhandled_rejection_count,
            last_unhandled_rejection: clone_opt(&self.last_unhandled_rejection),
        }
    }
}

/// A number field that an object may leave out, but a list may not.
pub open spec fn read_listed_opt_u64(v: JsonView, name: Seq<char>, position: int) -> Option<
    Option<u64>,
> {
    match record_field(v, name, position) {
        None => if v is Array {
            None
        } else {
            Some(None)
        },
        Some(JsonView::Null) => Some(None),
        Some(JsonView::Unsigned(n)) => Some(Some(n)),
        _ => None,
    }
}

fn get_listed_opt_u64(v: &JsonValue, name: &str, position: usize) -> (res: Option<Option<u64>>)
    ensures
        res == read_listed_opt_u64(v@, name@, position as int),
{
    match v.field(name, position) {
        None => if matches!(v, JsonValue::Array(_)) {
            None
        } else {
            Some(None)
        },
        Some(JsonValue::Null) => Some(None),
        Some(JsonValue::Unsigned(n)) => Some(Some(*n)),
        _ => None,
    }
}

/// The diagnostics that a value describes.
pub open spec fn read_bootstrap(v: JsonView) -> Option<BootstrapView> {
    let document_loaded = read_bool(record_field(v, "document_loaded"@, 0));
    let document_loaded_at_ms = read_listed_opt_u64(v, "document_loaded_at_ms"@, 1);
    let module_scripts_present = read_bool(record_field(v, "module_scripts_present"@, 2));
    let module_script_count = read_usize(record_field(v, "module_script_count"@, 3));
    let module_script_sources = read_texts(record_field(v, "module_script_sources"@, 4));
    let synthetic_shell_active = read_bool(record_field(v, "synthetic_shell_active"@, 5));
    let root_selector = read_listed_opt_text(v, "root_selector"@, 6);
    let root_present = read_bool(record_field(v, "root_present"@, 7));
    let root_child_element_count = read_usize(record_field(v, "root_child_element_count"@, 8));
    let root_text_length = read_usize(record_field(v, "root_text_length"@, 9));
    let root_html_length = read_usize(record_field(v, "root_html_length"@, 10));
    let body_text_length = read_usize(record_field(v, "body_text_length"@, 11));
    let body_descendant_count = read_usize(record_field(v, "body_descendant_count"@, 12));
    let dom_mutation_count = read_usize(record_field(v, "dom_mutation_count"@, 13));
    let app_dom_mutated_after_load = read_bool(record_field(v, "app_dom_mutated_after_load"@, 14));
    let body_mutation_after_load_count = read_usize(record_field(v, "body_mutation_after_load_count"@, 15));
    let root_mutation_after_load_count = read_usize(record_field(v, "root_mutation_after_load_count"@, 16));
    let module_bootstrap_observed = read_bool(record_field(v, "module_bootstrap_observed"@, 17));
    let inspectable_dom_ready = read_bool(record_field(v, "inspectable_dom_ready"@, 18));
    let script_error_count = read_usize(record_field(v, "script_error_count"@, 19));
    let last_script_error = read_listed_opt_text(v, "last_script_error"@, 20);
    let unhandled_rejection_count = read_usize(record_field(v, "unhandled_rejection_count"@, 21));
    let last_unhandled_rejection = read_listed_opt_text(v, "last_unhandled_rejection"@, 22);
    if record_shape(v, 23) && document_loaded is Some && document_loaded_at_ms is Some && module_scripts_present is Some && module_script_count is Some && module_script_sources is Some && synthetic_shell_active is Some && root_selector is Some && root_present is Some && root_child_element_count is Some && root_text_length is Some && root_html_length is Some && body_text_length is Some && body_descendant_count is Some && dom_mutation_count is Some && app_dom_mutated_after_load is Some && body_mutation_after_load_count is Some && root_mutation_after_load_count is Some && module_bootstrap_observed is Some && inspectable_dom_ready is Some && script_error_count is Some && last_script_error is Some && unhandled_rejection_count is Some && last_unhandled_rejection is Some {
        Some(
            BootstrapView {
                document_loaded: document_loaded->Some_0,
                document_loaded_at_ms: document_loaded_at_ms->Some_0,
                module_scripts_present: module_scripts_present->Some_0,
                module_script_count: module_script_count->Some_0,
                module_script_sources: module_script_sources->Some_0,
                synthetic_shell_active: synthetic_shell_active->Some_0,
                root_selector: root_selector->Some_0,
                root_present: root_present->Some_0,
                root_child_element_count: root_child_element_count->Some_0,
                root_text_length: root_text_length->Some_0,
                root_html_length: root_html_length->Some_0,
                body_text_length: body_text_length->Some_0,
                body_descendant_count: body_descendant_count->Some_0,
                dom_mutation_count: dom_mutation_count->Some_0,
                app_dom_mutated_after_load: app_dom_mutated_after_load->Some_0,
                body_mutation_after_load_count: body_mutation_after_load_count->Some_0,
                root_mutation_after_load_count: root_mutation_after_load_count->Some_0,
                module_bootstrap_observed: module_bootstrap_observed->Some_0,
                inspectable_dom_ready: inspectable_dom_ready->Some_0,
                script_error_count: script_error_count->Some_0,
                last_script_error: last_script_error->Some_0,
                unhandled_rejection_count: unhandled_rejection_count->Some_0,
                last_unhandled_rejection: last_unhandled_rejection->Some_0,
            },
        )
    } else {
        None
    }
}

/// The diagnostics that a value describes.
pub fn bootstrap_from_json(v: &JsonValue) -> (res: Option<PageBootstrapDiagnostics>)
    ensures
        match res {
            Some(b) => read_bootstrap(v@) == Some(b@),
            None => read_bootstrap(v@) is None,
        },
{
    if !v.has_record_shape(23) {
        return None;
    }
    let document_loaded = match get_bool(v.field("document_loaded", 0)) {
        Some(x) => x,
        None => {
            return None;
        },
    };
    let document_loaded_at_ms = match get_listed_opt_u64(v, "document_loaded_at_ms", 1) {
        Some(x) => x,
        None => {
            return None;
        },
    };
    let module_scripts_present = match get_bool(v.field("module_scripts_present", 2)) {
        Some(x) => x,
        None => {
            return None;
        },
    };
    let module_script_count = match get_usize(v.field("module_script_count", 3)) {
        Some(x) => x,
        None => {
            return None;
        },
    };
    let module_script_sources = match get_texts(v.field("module_script_sources", 4)) {
        Some(x) => x,
        None => {
            return None;
        },
    };
    let synthetic_shell_active = match get_bool(v.field("synthetic_shell_active", 5)) {
        Some(x) => x,
        None => {
            return None;
        },
    };
    let root_selector = match get_listed_opt_text(v, "root_selector", 6) {
        Some(x) => x,
        None => {
            return None;
        },
    };
    let root_present = match get_bool(v.field("root_present", 7)) {
        Some(x) => x,
        None => {
            return None;
        },
    };
    let root_child_element_count = match get_usize(v.field("root_child_element_count", 8)) {
        Some(x) => x,
        None => {
            return None;
        },
    };
    let root_text_length = match get_usize(v.field("root_text_length", 9)) {
        Some(x) => x,
        None => {
            return None;
        },
    };
    let root_html_length = match get_usize(v.field("root_html_length", 10)) {
        Some(x) => x,
        None => {
            return None;
        },
    };
    let body_text_length = match get_usize(v.field("body_text_length", 11)) {
        Some(x) => x,
        None => {
            return None;
        },
    };
    let body_descendant_count = match get_usize(v.field("body_descendant_count", 12)) {
        Some(x) => x,
        None => {
            return None;
        },
    };
    let dom_mutation_count = match get_usize(v.field("dom_mutation_count", 13)) {
        Some(x) => x,
        None => {
            return None;
        },
    };
    let app_dom_mutated_after_load = match get_bool(v.field("app_dom_mutated_after_load", 14)) {
        Some(x) => x,
        None => {
            return None;
        },
    };
    let body_mutation_after_load_count = match get_usize(v.field("body_mutation_after_load_count", 15)) {
        Some(x) => x,
        None => {
            return None;
        },
    };
    let root_mutation_after_load_count = match get_usize(v.field("root_mutation_after_load_count", 16)) {
        Some(x) => x,
        None => {
            return None;
        },
    };
    let module_bootstrap_observed = match get_bool(v.field("module_bootstrap_observed", 17)) {
        Some(x) => x,
        None => {
            return None;
        },
    };
    let inspectable_dom_ready = match get_bool(v.field("inspectable_dom_ready", 18)) {
        Some(x) => x,
        None => {
            return None;
        },
    };
    let script_error_count = match get_usize(v.field("script_error_count", 19)) {
        Some(x) => x,
        None => {
            return None;
        },
    };
    let last_script_error = match get_listed_opt_text(v, "last_script_error", 20) {
        Some(x) => x,
        None => {
            return None;
        },
    };
    let unhandled_rejection_count = match get_usize(v.field("unhandled_rejection_count", 21)) {
        Some(x) => x,
        None => {
            return None;
        },
    };
    let last_unhandled_rejection = match get_listed_opt_text(v, "last_unhandled_rejection", 22) {
        Some(x) => x,
        None => {
            return None;
        },
    };
    Some(
        PageBootstrapDiagnostics {
            document_loaded,
            document_loaded_at_ms,
            module_scripts_present,
            module_script_count,
            module_script_sources,
            synthetic_shell_active,
            root_selector,
            root_present,
            root_child_element_count,
            root_text_length,
            root_html_length,
            body_text_length,
            body_descendant_count,
            dom_mutation_count,
            app_dom_mutated_after_load,
            body_mutation_after_load_count,
            root_mutation_after_load_count,
            module_bootstrap_observed,
            inspectable_dom_ready,
            script_error_count,
            last_script_error,
            unhandled_rejection_count,
            last_unhandled_rejection,
        },
    )
}

/// What is known of a media element: what decisions rest on, and its full report.
#[derive(Debug, PartialEq, Eq)]
pub struct MediaDiagnostics {
    pub node_id: Option<u64>,
    pub current_src: Option<String>,
    pub ready_state: Option<u8>,
    pub duration_known: bool,
    pub report: JsonValue,
}

/// The contents of a `MediaDiagnostics`.
#[verifier::ext_equal]
pub struct MediaView {
    pub node_id: Option<u64>,
    pub current_src: Option<Seq<char>>,
    pub ready_state: Option<u8>,
    pub duration_known: bool,
    pub report: JsonView,
}

impl View for MediaDiagnostics {
    type V = MediaView;

    open spec fn view(&self) -> MediaView {
        MediaView {
            node_id: self.node_id,
            current_src: opt_text(self.current_src),
            ready_state: self.ready_state,
            duration_known: self.duration_known,
            report: self.report@,
        }
    }
}

impl Clone for MediaDiagnostics {
    fn clone(&self) -> (res: Self)
        ensures
            res@ == self@,
    {
        MediaDiagnostics {
            node_id: self.node_id,
            current_src: clone_opt(&self.current_src),
            ready_state: self.ready_state,
            duration_known: self.duration_known,
            report: self.report.clone(),
        }
    }
}

/// The contents of a list of media elements.
pub open spec fn media_view(list: Seq<MediaDiagnostics>) -> Seq<MediaView> {
    Seq::new(list.len(), |i: int| list[i]@)
}

/// A copy of a list of media elements.
pub fn clone_media(list: &Vec<MediaDiagnostics>) -> (res: Vec<MediaDiagnostics>)
    ensures
        media_view(res@) == media_view(list@),
{
    let mut out: Vec<MediaDiagnostics> = Vec::new();
    let mut i: usize = 0;
    while i < list.len()
        invariant
            i <= list@.len(),
            out@.len() == i,
            forall|j: int| 0 <= j < i ==> (#[trigger] out@[j])@ == list@[j]@,
        decreases list@.len() - i,
    {
        out.push(list[i].clone());
        i += 1;
    }
    assert(media_view(out@) =~= media_view(list@));
    out
}

/// What a script found about the scroll position, a selector and running animations.
#[derive(Debug, Clone, Copy, PartialEq, Eq, Structural)]
pub struct WaitLiveState {
    pub scroll_x: Option<i64>,
    pub scroll_y: Option<i64>,
    pub selector_found: bool,
    pub animations_running: bool,
}

/// What a state that was read, or the message of the error that its reader gave, comes to.
pub open spec fn wait_state_result(
    read: Result<WaitLiveState, String>,
    res: Result<WaitLiveState, AegisError>,
) -> bool {
    match read {
        Ok(s) => res == Ok::<WaitLiveState, AegisError>(s),
        Err(m) => res matches Err(e) && e@ == ErrorView::Bridge(
            "wait state json parse error: "@ + m@,
        ),
    }
}

/// What the text that a script returned says of the live state, where `read` reads such texts.
pub fn parse_wait_state<F: Fn(&str) -> Result<WaitLiveState, String>>(raw: &str, read: F) -> (res:
    Result<WaitLiveState, AegisError>)
    requires
        read.requires((raw,)),
    ensures
        exists|r: Result<WaitLiveState, String>| #[trigger]
            read.ensures((raw,), r) && wait_state_result(r, res),
{
    let state = read(raw);
    match state {
        Ok(s) => Ok(s),
        Err(m) => Err(AegisError::Bridge(concat2("wait state json parse error: ", m.as_str()))),
    }
}

/// The script that reports the live state, before the selector.
pub open spec fn wait_script_head() -> Seq<char> {
    "(() => {\n                const selector = "@
}

/// The script that reports the live state, after the selector.
pub open spec fn wait_script_tail() -> Seq<char> {
    ";\n                let selectorFound = false;\n                if (selector) {\n                    try {\n                        selectorFound = !!document.querySelector(selector);\n                    } catch (_error) {\n                        selectorFound = false;\n                    }\n                }\n                const animations = typeof document.getAnimations === \"function\"\n                    ? document.getAnimations().some((animation) => animation.playState === \"running\")\n                    : false;\n                return JSON.stringify({\n                    scroll_x: Number.isFinite(window.scrollX) ? window.scrollX : null,\n                    scroll_y: Number.isFinite(window.scrollY) ? window.scrollY : null,\n                    selector_found: selectorFound,\n                    animations_running: animations\n                });\n            })()"@
}

/// The script that reports the live state and looks for a selector.
pub fn wait_state_script(selector: Option<&str>) -> (res: String)
    ensures
        res@ == wait_script_head() + written_json(
            JsonView::Text(
                match selector {
                    Some(s) => s@,
                    None => Seq::empty(),
                },
            ),
        ) + wait_script_tail(),
{
    let quoted = match selector {
        Some(s) => write_json(&JsonValue::text(s)),
        None => {
            let empty = String::new();
            assert(empty@ =~= Seq::<char>::empty());
            write_json(&JsonValue::Text(empty))
        },
    };
    concat3(
        "(() => {\n                const selector = ",
        quoted.as_str(),
        ";\n                let selectorFound = false;\n                if (selector) {\n                    try {\n                        selectorFound = !!document.querySelector(selector);\n                    } catch (_error) {\n                        selectorFound = false;\n                    }\n                }\n                const animations = typeof document.getAnimations === \"function\"\n                    ? document.getAnimations().some((animation) => animation.playState === \"running\")\n                    : false;\n                return JSON.stringify({\n                    scroll_x: Number.isFinite(window.scrollX) ? window.scrollX : null,\n                    scroll_y: Number.isFinite(window.scrollY) ? window.scrollY : null,\n                    selector_found: selectorFound,\n                    animations_running: animations\n                });\n            })()",
    )
}

/// The script that reports the state of the page.
pub fn live_state_script() -> (res: &'static str)
    ensures
        res@ == "JSON.stringify(window.__aegis ? window.__aegis.currentPageState() : {\n            url: window.location ? window.location.href : null,\n            title: document.title || null,\n            ready_state: document.readyState || null,\n            media: []\n        })"@,
{
    "JSON.stringify(window.__aegis ? window.__aegis.currentPageState() : {\n            url: window.location ? window.location.href : null,\n            title: document.title || null,\n            ready_state: document.readyState || null,\n            media: []\n        })"
}

/// What a page reports of its scripts is taken over as it is told, each part from under its own
/// name; a part that may be missing is unknown where nothing is told.
pub proof fn law_report_of_scripts_is_taken_over(v: JsonView)
    requires
        v is Object,
        read_bootstrap(v) is Some,
    ensures
        ({
            let b = read_bootstrap(v)->Some_0;
            &&& crate::json::member(v, "document_loaded"@) == Some(JsonView::Bool(b.document_loaded))
            &&& crate::json::member(v, "module_scripts_present"@) == Some(JsonView::Bool(b.module_scripts_present))
            &&& crate::json::member(v, "synthetic_shell_active"@) == Some(JsonView::Bool(b.synthetic_shell_active))
            &&& crate::json::member(v, "root_present"@) == Some(JsonView::Bool(b.root_present))
            &&& crate::json::member(v, "app_dom_mutated_after_load"@) == Some(JsonView::Bool(b.app_dom_mutated_after_load))
            &&& crate::json::member(v, "module_bootstrap_observed"@) == Some(JsonView::Bool(b.module_bootstrap_observed))
            &&& crate::json::member(v, "inspectable_dom_ready"@) == Some(JsonView::Bool(b.inspectable_dom_ready))
            &&& crate::json::member(v, "module_script_count"@) == Some(JsonView::Unsigned(b.module_script_count as u64))
            &&& crate::json::member(v, "root_child_element_count"@) == Some(JsonView::Unsigned(b.root_child_element_count as u64))
            &&& crate::json::member(v, "root_text_length"@) == Some(JsonView::Unsigned(b.root_text_length as u64))
            &&& crate::json::member(v, "root_html_length"@) == Some(JsonView::Unsigned(b.root_html_length as u64))
            &&& crate::json::member(v, "body_text_length"@) == Some(JsonView::Unsigned(b.body_text_length as u64))
            &&& crate::json::member(v, "body_descendant_count"@) == Some(JsonView::Unsigned(b.body_descendant_count as u64))
            &&& crate::json::member(v, "dom_mutation_count"@) == Some(JsonView::Unsigned(b.dom_mutation_count as u64))
            &&& crate::json::member(v, "body_mutation_after_load_count"@) == Some(JsonView::Unsigned(b.body_mutation_after_load_count as u64))
            &&& crate::json::member(v, "root_mutation_after_load_count"@) == Some(JsonView::Unsigned(b.root_mutation_after_load_count as u64))
            &&& crate::json::member(v, "script_error_count"@) == Some(JsonView::Unsigned(b.script_error_count as u64))
            &&& crate::json::member(v, "unhandled_rejection_count"@) == Some(JsonView::Unsigned(b.unhandled_rejection_count as u64))
            &&& b.root_selector is Some ==> crate::json::member(v, "root_selector"@) == Some(
                JsonView::Text(b.root_selector->Some_0),
            )
            &&& b.root_selector is None ==> !(crate::json::member(v, "root_selector"@) matches Some(JsonView::Text(_)))
            &&& b.last_script_error is Some ==> crate::json::member(v, "last_script_error"@) == Some(
                JsonView::Text(b.last_script_error->Some_0),
            )
            &&& b.last_script_error is None ==> !(crate::json::member(v, "last_script_error"@) matches Some(JsonView::Text(_)))
            &&& b.last_unhandled_rejection is Some ==> crate::json::member(v, "last_unhandled_rejection"@) == Some(
                JsonView::Text(b.last_unhandled_rejection->Some_0),
            )
            &&& b.last_unhandled_rejection is None ==> !(crate::json::member(v, "last_unhandled_rejection"@) matches Some(JsonView::Text(_)))
            &&& b.document_loaded_at_ms is Some ==> crate::json::member(v, "document_loaded_at_ms"@)
                == Some(JsonView::Unsigned(b.document_loaded_at_ms->Some_0))
            &&& b.document_loaded_at_ms is None ==> !(crate::json::member(
                v,
                "document_loaded_at_ms"@,
            ) matches Some(JsonView::Unsigned(_)))
            &&& crate::json::member(v, "module_script_sources"@) is None
                ==> b.module_script_sources.len() == 0
            &&& crate::json::member(v, "module_script_sources"@) is Some ==> {
                &&& crate::json::member(v, "module_script_sources"@) matches Some(
                    JsonView::Array(items),
                )
                &&& items.len() == b.module_script_sources.len()
                &&& forall|i: int|
                    0 <= i < items.len() ==> #[trigger] items[i] == JsonView::Text(
                        b.module_script_sources[i],
                    )
            }
        }),
{
}

} // verus!
