//! How requests fail.

use vstd::prelude::*;

use crate::api::diagnostics::{
    carries, opt_native, parse_native_operation_error, COMMAND_TIMEOUT_MS,
    NativeOperationError, NativeView, ReportView, RuntimeDiagnosticsResponse,
};
use crate::text::{concat3, opt_text};
use crate::transport::bridge::{error_text, AegisError, ErrorView};

verus! {

/// What a failed request is answered.
#[derive(Debug, PartialEq, Eq)]
pub struct ApiErrorBody {
    pub error: String,
    pub code: String,
    pub operation: Option<String>,
    pub stage: Option<String>,
    pub elapsed_ms: Option<u64>,
    pub timed_out: bool,
    pub restart_recommended: bool,
}

/// A failed request: the HTTP status and what is answered.
#[derive(Debug, PartialEq, Eq)]
pub struct ApiError {
    pub status: u16,
    pub body: ApiErrorBody,
}

/// The contents of an `ApiError`.
#[verifier::ext_equal]
pub struct ApiErrorView {
    pub status: u16,
    pub error: Seq<char>,
    pub code: Seq<char>,
    pub operation: Option<Seq<char>>,
    pub stage: Option<Seq<char>>,
    pub elapsed_ms: Option<u64>,
    pub timed_out: bool,
    pub restart_recommended: bool,
}

impl View for ApiError {
    type V = ApiErrorView;

    open spec fn view(&self) -> ApiErrorView {
        ApiErrorView {
            status: self.status,
            error: self.body.error@,
            code: self.body.code@,
            operation: opt_text(self.body.operation),
            stage: opt_text(self.body.stage),
            elapsed_ms: self.body.elapsed_ms,
            timed_out: self.body.timed_out,
            restart_recommended: self.body.restart_recommended,
        }
    }
}

/// The status for a request that is not well-formed.
pub const BAD_REQUEST: u16 = 400;

/// The status for something that is not there.
pub const NOT_FOUND: u16 = 404;

/// The status for a runtime that failed.
pub const BAD_GATEWAY: u16 = 502;

/// The status for a runtime that is not ready.
pub const SERVICE_UNAVAILABLE: u16 = 503;

/// The status for a runtime that did not reply in time.
pub const GATEWAY_TIMEOUT: u16 = 504;

/// An answer that says no more than what is wrong.
pub open spec fn plain_error(status: u16, error: Seq<char>, code: Seq<char>) -> ApiErrorView {
    ApiErrorView {
        status,
        error,
        code,
        operation: None,
        stage: None,
        elapsed_ms: None,
        timed_out: false,
        restart_recommended: false,
    }
}

/// The answer for an error, given the native error that it carries.
pub open spec fn error_answer(e: ErrorView, native: Option<NativeView>) -> ApiErrorView {
    match native {
        Some(n) => ApiErrorView {
            status: if n.timed_out {
                GATEWAY_TIMEOUT
            } else {
                BAD_GATEWAY
            },
            error: n.message,
            code: "native_operation_error"@,
            operation: Some(n.operation),
            stage: Some(n.stage),
            elapsed_ms: Some(n.elapsed_ms),
            timed_out: n.timed_out,
            restart_recommended: n.restart_recommended,
        },
        None => plain_error(
            if e is InvalidSession {
                BAD_REQUEST
            } else {
                BAD_GATEWAY
            },
            error_text(e),
            "aegis_error"@,
        ),
    }
}

/// The answer for a request whose reply did not come in time.
pub open spec fn timeout_answer(operation: Seq<char>) -> ApiErrorView {
    ApiErrorView {
        status: GATEWAY_TIMEOUT,
        error: "operation `"@ + operation
            + "` exceeded the server timeout and a runtime cancellation request was sent"@,
        code: "operation_cancel_requested"@,
        operation: Some(operation),
        stage: Some("awaiting_control_plane_reply"@),
        elapsed_ms: Some(COMMAND_TIMEOUT_MS),
        timed_out: true,
        restart_recommended: false,
    }
}

/// Whether a runtime accepts commands, but its page cannot be looked at yet.
pub open spec fn not_inspectable(r: ReportView) -> bool {
    r.command_ready && (r.synthetic_shell_active || (r.document_loaded && r.module_scripts_present
        && !r.inspectable_dom_ready))
}

/// Whether a context is ready: it accepts commands, and no document is loaded whose scripts
/// or whose bootstrap shell still stand before the page.
pub open spec fn is_ready(r: ReportView) -> bool {
    r.command_ready && !(r.document_loaded && (r.synthetic_shell_active || (
    r.module_scripts_present && !r.inspectable_dom_ready)))
}

/// The answer for a context that is not ready.
pub open spec fn readiness_answer(r: ReportView) -> ApiErrorView {
    ApiErrorView {
        status: SERVICE_UNAVAILABLE,
        error: if not_inspectable(r) {
            if r.synthetic_shell_active {
                "runtime is attached, but is still on the synthetic bootstrap shell"@
            } else {
                "runtime is attached, but the page is not yet inspectable"@
            }
        } else {
            "runtime is not command-ready"@
        },
        code: "not_ready"@,
        operation: match r.active_operation {
            Some(op) => Some(op.name),
            None => None,
        },
        stage: match r.active_operation {
            Some(op) => Some(op.stage),
            None => if not_inspectable(r) {
                Some(
                    if r.synthetic_shell_active {
                        "stuck_on_bootstrap_shell"@
                    } else {
                        "awaiting_page_bootstrap"@
                    },
                )
            } else {
                None
            },
        },
        elapsed_ms: match r.active_operation {
            Some(op) => Some(op.elapsed_ms),
            None => None,
        },
        timed_out: r.active_operation matches Some(op) && op.timed_out,
        restart_recommended: r.last_failure matches Some(f) && f.restart_recommended,
    }
}

/// Whether a context is ready: it accepts commands, and no document is loaded whose scripts
/// or whose bootstrap shell still stand before the page.
pub fn context_is_ready(r: &RuntimeDiagnosticsResponse) -> (res: bool)
    ensures
        res == is_ready(r@),
{
    r.command_ready && (!r.document_loaded || (!r.module_scripts_present
        && !r.synthetic_shell_active) || (r.inspectable_dom_ready && !r.synthetic_shell_active))
}

impl ApiError {
    fn plain(status: u16, error: String, code: &str) -> (res: Self)
        ensures
            res@ == plain_error(status, error@, code@),
    {
        ApiError {
            status,
            body: ApiErrorBody {
                error,
                code: code.to_owned(),
                operation: None,
                stage: None,
                elapsed_ms: None,
                timed_out: false,
                restart_recommended: false,
            },
        }
    }

    /// The answer for something that is not there.
    pub fn not_found(message: String) -> (res: Self)
        ensures
            res@ == plain_error(NOT_FOUND, message@, "not_found"@),
    {
        ApiError::plain(NOT_FOUND, message, "not_found")
    }

    /// The answer for a request whose reply did not come in time.
    pub fn timeout(operation: &str) -> (res: Self)
        ensures
            res@ == timeout_answer(operation@),
    {
        ApiError {
            status: GATEWAY_TIMEOUT,
            body: ApiErrorBody {
                error: concat3(
                    "operation `",
                    operation,
                    "` exceeded the server timeout and a runtime cancellation request was sent",
                ),
                code: "operation_cancel_requested".to_owned(),
                operation: Some(operation.to_owned()),
                stage: Some("awaiting_control_plane_reply".to_owned()),
                elapsed_ms: Some(COMMAND_TIMEOUT_MS),
                timed_out: true,
                restart_recommended: false,
            },
        }
    }

    /// The answer for a context that is not ready.
    pub fn readiness(diagnostics: &RuntimeDiagnosticsResponse) -> (res: Self)
        ensures
            res@ == readiness_answer(diagnostics@),
    {
        let shell = diagnostics.synthetic_shell_active;
        let hidden = diagnostics.command_ready && (shell || (diagnostics.document_loaded
            && diagnostics.module_scripts_present && !diagnostics.inspectable_dom_ready));
        let error = if hidden {
            if shell {
                "runtime is attached, but is still on the synthetic bootstrap shell"
            } else {
                "runtime is attached, but the page is not yet inspectable"
            }
        } else {
            "runtime is not command-ready"
        };
        let operation = match &diagnostics.active_operation {
            Some(op) => Some(op.name.clone()),
            None => None,
        };
        let stage = match &diagnostics.active_operation {
            Some(op) => Some(op.stage.clone()),
            None => {
                if hidden {
                    if shell {
                        Some("stuck_on_bootstrap_shell".to_owned())
                    } else {
                        Some("awaiting_page_bootstrap".to_owned())
                    }
                } else {
                    None
                }
            },
        };
        let elapsed_ms = match &diagnostics.active_operation {
            Some(op) => Some(op.elapsed_ms),
            None => None,
        };
        let timed_out = match &diagnostics.active_operation {
            Some(op) => op.timed_out,
            None => false,
        };
        let restart_recommended = match &diagnostics.last_failure {
            Some(f) => f.restart_recommended,
            None => false,
        };
        ApiError {
            status: SERVICE_UNAVAILABLE,
            body: ApiErrorBody {
                error: error.to_owned(),
                code: "not_ready".to_owned(),
                operation,
                stage,
                elapsed_ms,
                timed_out,
                restart_recommended,
            },
        }
    }

    /// The answer for an error, given the native error that it carries.
    pub fn from_error_with(error: &AegisError, native: Option<NativeOperationError>) -> (res: Self)
        ensures
            res@ == error_answer(error@, opt_native(native)),
    {
        match native {
            Some(n) => ApiError {
                status: if n.timed_out {
                    GATEWAY_TIMEOUT
                } else {
                    BAD_GATEWAY
                },
                body: ApiErrorBody {
                    error: n.message,
                    code: "native_operation_error".to_owned(),
                    operation: Some(n.operation),
                    stage: Some(n.stage),
                    elapsed_ms: Some(n.elapsed_ms),
                    timed_out: n.timed_out,
                    restart_recommended: n.restart_recommended,
                },
            },
            None => {
                let status: u16 = match error {
                    AegisError::InvalidSession(_) => BAD_REQUEST,
                    _ => BAD_GATEWAY,
                };
                ApiError::plain(status, error.message(), "aegis_error")
            },
        }
    }

    /// The answer for an error.
    pub fn from_error<F: Fn(&str) -> Option<NativeOperationError>>(
        error: &AegisError,
        read: F,
    ) -> (res: Self)
        requires
            forall|text: &str| #[trigger] read.requires((text,)),
        ensures
            exists|native: Option<NativeView>| #[trigger]
                carries(read, error_text(error@), native) && res@ == error_answer(error@, native),
    {
        let message = error.message();
        let native = parse_native_operation_error(message.as_str(), read);
        assert(carries(read, error_text(error@), opt_native(native)));
        ApiError::from_error_with(error, native)
    }
}

/// A session that is refused is answered as a bad request, unless the refusal carries a
/// native error; every other error is answered as a failure of the runtime.
pub proof fn law_refused_session_is_bad_request(message: Seq<char>)
    ensures
        error_answer(ErrorView::InvalidSession(message), None).status == BAD_REQUEST,
        error_answer(ErrorView::Bridge(message), None).status == BAD_GATEWAY,
{
}

/// A context that is not ready is answered so, and the answer says why: the page when the
/// runtime accepts commands, the runtime when it does not.
pub proof fn law_readiness_answer_is_truthful(r: ReportView)
    requires
        !is_ready(r),
    ensures
        readiness_answer(r).status == SERVICE_UNAVAILABLE,
        readiness_answer(r).error == "runtime is not command-ready"@ <==> !r.command_ready,
{
    reveal_strlit("runtime is not command-ready");
    reveal_strlit("runtime is attached, but is still on the synthetic bootstrap shell");
    reveal_strlit("runtime is attached, but the page is not yet inspectable");
    assert("runtime is not command-ready"@.len() == 28);
    assert("runtime is attached, but is still on the synthetic bootstrap shell"@.len() == 66);
    assert("runtime is attached, but the page is not yet inspectable"@.len() == 56);
}

/// A failure that the host tells is answered as the host tells it, as a timeout where it timed out
/// and else as one of the gateway; any other failure with its message, as a bad request where a
/// session was refused and else as one of the gateway.
pub proof fn law_failures_are_answered(e: ErrorView, native: Option<NativeView>)
    ensures
        ({
            let a = error_answer(e, native);
            &&& native is None ==> a.status == (if e is InvalidSession {
                400u16
            } else {
                502u16
            }) && a.error == error_text(e) && a.code == "aegis_error"@ && a.operation is None
                && a.stage is None && a.elapsed_ms is None && !a.timed_out && !a.restart_recommended
            &&& native is Some ==> {
                let n = native->Some_0;
                &&& a.status == if n.timed_out {
                    504u16
                } else {
                    502u16
                }
                &&& a.error == n.message && a.code == "native_operation_error"@
                &&& a.operation == Some(n.operation) && a.stage == Some(n.stage)
                &&& a.elapsed_ms == Some(n.elapsed_ms) && a.timed_out == n.timed_out
                &&& a.restart_recommended == n.restart_recommended
            }
        }),
        BAD_REQUEST == 400 && NOT_FOUND == 404 && BAD_GATEWAY == 502 && SERVICE_UNAVAILABLE == 503
            && GATEWAY_TIMEOUT == 504,
{
}

/// A request that takes too long is answered as a timeout, with the operation and a word on its
/// cancellation.
pub proof fn law_timeouts_are_answered(operation: Seq<char>)
    ensures
        ({
            let a = timeout_answer(operation);
            &&& a.status == 504 && a.code == "operation_cancel_requested"@
            &&& a.error == "operation `"@ + operation
                + "` exceeded the server timeout and a runtime cancellation request was sent"@
            &&& a.operation == Some(operation) && a.stage == Some("awaiting_control_plane_reply"@)
            &&& a.elapsed_ms == Some(COMMAND_TIMEOUT_MS) && a.timed_out && !a.restart_recommended
        }),
{
}

/// A runtime is ready exactly when it accepts commands and a document that has loaded is neither
/// the shell nor one whose scripts are there without its contents. What it lacks is answered, with
/// what runs and whether a restart is called for.
pub proof fn law_readiness(r: ReportView)
    ensures
        is_ready(r) <==> r.command_ready && (r.document_loaded ==> !r.synthetic_shell_active && (
        r.module_scripts_present ==> r.inspectable_dom_ready)),
        ({
            let a = readiness_answer(r);
            let shell = r.command_ready && r.synthetic_shell_active;
            let bare = r.command_ready && !r.synthetic_shell_active && r.document_loaded
                && r.module_scripts_present && !r.inspectable_dom_ready;
            &&& a.status == 503 && a.code == "not_ready"@
            &&& shell ==> a.error
                == "runtime is attached, but is still on the synthetic bootstrap shell"@
            &&& bare ==> a.error == "runtime is attached, but the page is not yet inspectable"@
            &&& !shell && !bare ==> a.error == "runtime is not command-ready"@
            &&& r.active_operation is Some ==> {
                let o = r.active_operation->Some_0;
                &&& a.operation == Some(o.name) && a.stage == Some(o.stage)
                &&& a.elapsed_ms == Some(o.elapsed_ms) && a.timed_out == o.timed_out
            }
            &&& r.active_operation is None ==> a.operation is None && a.elapsed_ms is None
                && !a.timed_out && a.stage == (if shell {
                Some("stuck_on_bootstrap_shell"@)
            } else if bare {
                Some("awaiting_page_bootstrap"@)
            } else {
                None
            })
            &&& a.restart_recommended <==> r.last_failure is Some
                && r.last_failure->Some_0.restart_recommended
        }),
{
}

} // verus!
