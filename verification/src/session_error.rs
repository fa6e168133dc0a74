//! How opening and shutting down a Session can fail.

use crate::error;
use crate::error::{
    DiagnosticCategory, DiagnosticCode, DiagnosticSummary, DiagnosticView, RedactedDiagnostic,
};
use crate::ids::SessionId;
use vstd::prelude::*;
use vstd::string::StringExecFns;

verus! {

#[derive(Clone, Copy, Debug, PartialEq, Eq, Structural)]
pub enum SessionLogErrorKind {
    NotInitialized,
    AlreadyInitialized,
    Conflict,
    Corrupt,
    Unavailable,
    UnknownOutcome,
    Closed,
    Internal,
}

impl SessionLogErrorKind {
    pub open spec fn spec_name(self) -> Seq<char> {
        match self {
            SessionLogErrorKind::NotInitialized => "NotInitialized"@,
            SessionLogErrorKind::AlreadyInitialized => "AlreadyInitialized"@,
            SessionLogErrorKind::Conflict => "Conflict"@,
            SessionLogErrorKind::Corrupt => "Corrupt"@,
            SessionLogErrorKind::Unavailable => "Unavailable"@,
            SessionLogErrorKind::UnknownOutcome => "UnknownOutcome"@,
            SessionLogErrorKind::Closed => "Closed"@,
            SessionLogErrorKind::Internal => "Internal"@,
        }
    }

    pub fn name(self) -> (name: &'static str)
        ensures
            name@ == self.spec_name(),
    {
        match self {
            SessionLogErrorKind::NotInitialized => "NotInitialized",
            SessionLogErrorKind::AlreadyInitialized => "AlreadyInitialized",
            SessionLogErrorKind::Conflict => "Conflict",
            SessionLogErrorKind::Corrupt => "Corrupt",
            SessionLogErrorKind::Unavailable => "Unavailable",
            SessionLogErrorKind::UnknownOutcome => "UnknownOutcome",
            SessionLogErrorKind::Closed => "Closed",
            SessionLogErrorKind::Internal => "Internal",
        }
    }

    fn is_retryable(self) -> (retryable: bool)
        ensures
            retryable == (self is Unavailable),
    {
        matches!(self, SessionLogErrorKind::Unavailable)
    }
}

/// A failure of a Session log.
#[derive(PartialEq, Eq)]
pub struct SessionLogError {
    kind: SessionLogErrorKind,
    diagnostic: DiagnosticSummary,
}

pub struct SessionLogErrorView {
    pub kind: SessionLogErrorKind,
    pub diagnostic: DiagnosticView,
}

impl View for SessionLogError {
    type V = SessionLogErrorView;

    closed spec fn view(&self) -> SessionLogErrorView {
        SessionLogErrorView { kind: self.kind, diagnostic: self.diagnostic@ }
    }
}

impl Clone for SessionLogError {
    fn clone(&self) -> (copy: Self)
        ensures
            copy@ == self@,
    {
        SessionLogError { kind: self.kind, diagnostic: self.diagnostic.clone() }
    }
}

impl SessionLogError {
    pub fn new(kind: SessionLogErrorKind, diagnostic: DiagnosticSummary) -> (error: Self)
        ensures
            error@ == (SessionLogErrorView { kind, diagnostic: diagnostic@ }),
    {
        SessionLogError { kind, diagnostic }
    }

    pub fn kind(&self) -> (kind: SessionLogErrorKind)
        ensures
            kind == self@.kind,
    {
        self.kind
    }

    pub fn diagnostic(&self) -> (diagnostic: &DiagnosticSummary)
        ensures
            diagnostic@ == self@.diagnostic,
    {
        &self.diagnostic
    }

    /// The text shown for this failure.
    pub fn message(&self) -> (text: String)
        ensures
            text@ == "session log error: "@ + self@.kind.spec_name(),
    {
        let mut text = String::new();
        text.append("session log error: ");
        text.append(self.kind.name());
        assert(text@ =~= "session log error: "@ + self@.kind.spec_name());
        text
    }
}

#[non_exhaustive]
#[derive(Clone, Copy, Debug, PartialEq, Eq, Structural)]
pub enum SessionOpenErrorKind {
    InvalidConfiguration,
    InvalidManifest,
    SessionIdMismatch,
    BindingMismatch,
    Log,
    RecoveryUncertain,
    ActorStartFailed,
}

/// What only some open failures carry.
#[derive(PartialEq, Eq)]
struct SessionOpenErrorDetails {
    session_id_mismatch: Option<(SessionId, SessionId)>,
    log_error: Option<SessionLogError>,
    secondary_diagnostic: Option<DiagnosticSummary>,
}

/// A failure to open a Session.
#[derive(PartialEq, Eq)]
pub struct SessionOpenError {
    kind: SessionOpenErrorKind,
    diagnostic: DiagnosticSummary,
    details: SessionOpenErrorDetails,
}

pub struct SessionOpenErrorView {
    pub kind: SessionOpenErrorKind,
    pub diagnostic: DiagnosticView,
    pub session_id_mismatch: Option<(SessionId, SessionId)>,
    pub log_error: Option<SessionLogErrorView>,
    pub secondary_diagnostic: Option<DiagnosticView>,
}

/// What a failure to open a Session shows of itself.
#[derive(Debug)]
pub struct RedactedSessionOpenError {
    pub kind: SessionOpenErrorKind,
    pub diagnostic: RedactedDiagnostic,
    pub session_id_mismatch: Option<(SessionId, SessionId)>,
    pub has_log_error: bool,
    pub secondary_diagnostic: Option<RedactedDiagnostic>,
}

pub open spec fn optional_log_error(error: Option<SessionLogError>) -> Option<SessionLogErrorView> {
    match error {
        Some(error) => Some(error@),
        None => None,
    }
}

pub open spec fn optional_diagnostic(diagnostic: Option<DiagnosticSummary>) -> Option<DiagnosticView> {
    match diagnostic {
        Some(diagnostic) => Some(diagnostic@),
        None => None,
    }
}

impl View for SessionOpenError {
    type V = SessionOpenErrorView;

    closed spec fn view(&self) -> SessionOpenErrorView {
        SessionOpenErrorView {
            kind: self.kind,
            diagnostic: self.diagnostic@,
            session_id_mismatch: self.details.session_id_mismatch,
            log_error: optional_log_error(self.details.log_error),
            secondary_diagnostic: optional_diagnostic(self.details.secondary_diagnostic),
        }
    }
}

impl Clone for SessionOpenError {
    fn clone(&self) -> (copy: Self)
        ensures
            copy@ == self@,
    {
        let log_error = match &self.details.log_error {
            Some(error) => Some(error.clone()),
            None => None,
        };
        let secondary_diagnostic = match &self.details.secondary_diagnostic {
            Some(diagnostic) => Some(diagnostic.clone()),
            None => None,
        };
        SessionOpenError {
            kind: self.kind,
            diagnostic: self.diagnostic.clone(),
            details: SessionOpenErrorDetails {
                session_id_mismatch: self.details.session_id_mismatch,
                log_error,
                secondary_diagnostic,
            },
        }
    }
}

impl SessionOpenErrorView {
    /// A failure without details.
    pub open spec fn plain(
        kind: SessionOpenErrorKind,
        code: DiagnosticCode,
        category: DiagnosticCategory,
        message: Seq<char>,
        retryable: bool,
    ) -> Self {
        SessionOpenErrorView {
            kind,
            diagnostic: DiagnosticView { code, category, message, retryable },
            session_id_mismatch: None,
            log_error: None,
            secondary_diagnostic: None,
        }
    }

    /// The same error with a second diagnostic, or with its own where there is none.
    pub open spec fn with_secondary(self, diagnostic: Option<DiagnosticView>) -> Self {
        match diagnostic {
            Some(diagnostic) => SessionOpenErrorView {
                secondary_diagnostic: Some(diagnostic),
                ..self
            },
            None => self,
        }
    }

    /// Whether a printed form shows exactly the facts of this error.
    pub open spec fn is_shown_as(self, shown: RedactedSessionOpenError) -> bool {
        &&& shown.kind == self.kind
        &&& self.diagnostic.is_shown_as(shown.diagnostic)
        &&& shown.session_id_mismatch == self.session_id_mismatch
        &&& shown.has_log_error == self.log_error is Some
        &&& match (self.secondary_diagnostic, shown.secondary_diagnostic) {
            (Some(diagnostic), Some(shown)) => diagnostic.is_shown_as(shown),
            (None, None) => true,
            _ => false,
        }
    }

    pub open spec fn message(self) -> Seq<char> {
        match self.kind {
            SessionOpenErrorKind::InvalidConfiguration => "session configuration is invalid"@,
            SessionOpenErrorKind::InvalidManifest => "session manifest is invalid"@,
            SessionOpenErrorKind::SessionIdMismatch => "session identity does not match"@,
            SessionOpenErrorKind::BindingMismatch => "session bindings do not match"@,
            SessionOpenErrorKind::Log => "session log open failed"@,
            SessionOpenErrorKind::RecoveryUncertain => "session recovery is uncertain"@,
            SessionOpenErrorKind::ActorStartFailed => "session owner failed to start"@,
        }
    }
}

impl SessionOpenError {
    pub fn kind(&self) -> (kind: SessionOpenErrorKind)
        ensures
            kind == self@.kind,
    {
        self.kind
    }

    pub fn diagnostic(&self) -> (diagnostic: &DiagnosticSummary)
        ensures
            diagnostic@ == self@.diagnostic,
    {
        &self.diagnostic
    }

    pub fn session_id_mismatch(&self) -> (mismatch: Option<(SessionId, SessionId)>)
        ensures
            mismatch == self@.session_id_mismatch,
    {
        self.details.session_id_mismatch
    }

    pub fn log_error(&self) -> (error: Option<&SessionLogError>)
        ensures
            match error {
                Some(error) => self@.log_error == Some(error@),
                None => self@.log_error is None,
            },
    {
        self.details.log_error.as_ref()
    }

    pub fn secondary_diagnostic(&self) -> (diagnostic: Option<&DiagnosticSummary>)
        ensures
            match diagnostic {
                Some(diagnostic) => self@.secondary_diagnostic == Some(diagnostic@),
                None => self@.secondary_diagnostic is None,
            },
    {
        self.details.secondary_diagnostic.as_ref()
    }

    pub fn invalid_configuration() -> (error: Self)
        ensures
            error@ == SessionOpenErrorView::plain(
                SessionOpenErrorKind::InvalidConfiguration,
                DiagnosticCode::InvalidConfiguration,
                DiagnosticCategory::Configuration,
                "session runtime configuration is invalid"@,
                false,
            ),
    {
        proof {
            reveal_strlit("session runtime configuration is invalid");
        }
        SessionOpenError::new(
            SessionOpenErrorKind::InvalidConfiguration,
            DiagnosticCode::InvalidConfiguration,
            DiagnosticCategory::Configuration,
            "session runtime configuration is invalid",
            false,
        )
    }

    pub fn invalid_manifest() -> (error: Self)
        ensures
            error@ == SessionOpenErrorView::plain(
                SessionOpenErrorKind::InvalidManifest,
                DiagnosticCode::InvalidSessionManifest,
                DiagnosticCategory::Configuration,
                "session manifest or confirmed conversation is invalid"@,
                false,
            ),
    {
        proof {
            reveal_strlit("session manifest or confirmed conversation is invalid");
        }
        SessionOpenError::new(
            SessionOpenErrorKind::InvalidManifest,
            DiagnosticCode::InvalidSessionManifest,
            DiagnosticCategory::Configuration,
            "session manifest or confirmed conversation is invalid",
            false,
        )
    }

    pub fn for_session_id_mismatch(expected: SessionId, actual: SessionId) -> (error: Self)
        ensures
            error@ == (SessionOpenErrorView {
                session_id_mismatch: Some((expected, actual)),
                ..SessionOpenErrorView::plain(
                    SessionOpenErrorKind::SessionIdMismatch,
                    DiagnosticCode::InvalidSessionManifest,
                    DiagnosticCategory::Configuration,
                    "loaded manifest session identity does not match"@,
                    false,
                )
            }),
    {
        proof {
            reveal_strlit("loaded manifest session identity does not match");
        }
        let mut error = SessionOpenError::new(
            SessionOpenErrorKind::SessionIdMismatch,
            DiagnosticCode::InvalidSessionManifest,
            DiagnosticCategory::Configuration,
            "loaded manifest session identity does not match",
            false,
        );
        error.details.session_id_mismatch = Some((expected, actual));
        error
    }

    pub fn binding_mismatch(model_mismatch: bool) -> (error: Self)
        ensures
            error@ == SessionOpenErrorView::plain(
                SessionOpenErrorKind::BindingMismatch,
                if model_mismatch {
                    DiagnosticCode::ModelMismatch
                } else {
                    DiagnosticCode::InvalidConfiguration
                },
                DiagnosticCategory::Configuration,
                "session bindings are incompatible with the durable specification"@,
                false,
            ),
    {
        proof {
            reveal_strlit("session bindings are incompatible with the durable specification");
        }
        SessionOpenError::new(
            SessionOpenErrorKind::BindingMismatch,
            if model_mismatch {
                DiagnosticCode::ModelMismatch
            } else {
                DiagnosticCode::InvalidConfiguration
            },
            DiagnosticCategory::Configuration,
            "session bindings are incompatible with the durable specification",
            false,
        )
    }

    pub fn log(log_error: SessionLogError) -> (error: Self)
        ensures
            error@ == (SessionOpenErrorView {
                log_error: Some(log_error@),
                ..SessionOpenErrorView::plain(
                    SessionOpenErrorKind::Log,
                    code_of(log_error@.kind),
                    DiagnosticCategory::Storage,
                    "session log operation failed while opening the session"@,
                    log_error@.kind is Unavailable,
                )
            }),
            error@.diagnostic.retryable <==> log_error@.kind == SessionLogErrorKind::Unavailable,
            error@.diagnostic.category == DiagnosticCategory::Storage,
            error@.kind == SessionOpenErrorKind::Log,
    {
        proof {
            reveal_strlit("session log operation failed while opening the session");
        }
        let mut error = SessionOpenError::new(
            SessionOpenErrorKind::Log,
            log_code(log_error.kind()),
            DiagnosticCategory::Storage,
            "session log operation failed while opening the session",
            log_error.kind().is_retryable(),
        );
        error.details.log_error = Some(log_error);
        error
    }

    pub fn recovery_uncertain(log_error: Option<SessionLogError>) -> (error: Self)
        ensures
            error@ == (SessionOpenErrorView {
                log_error: optional_log_error(log_error),
                ..SessionOpenErrorView::plain(
                    SessionOpenErrorKind::RecoveryUncertain,
                    DiagnosticCode::LogUnknownOutcome,
                    DiagnosticCategory::Storage,
                    "restart recovery durability is uncertain"@,
                    false,
                )
            }),
    {
        proof {
            reveal_strlit("restart recovery durability is uncertain");
        }
        let mut error = SessionOpenError::new(
            SessionOpenErrorKind::RecoveryUncertain,
            DiagnosticCode::LogUnknownOutcome,
            DiagnosticCategory::Storage,
            "restart recovery durability is uncertain",
            false,
        );
        error.details.log_error = log_error;
        error
    }

    pub fn actor_start_failed() -> (error: Self)
        ensures
            error@ == SessionOpenErrorView::plain(
                SessionOpenErrorKind::ActorStartFailed,
                DiagnosticCode::RuntimeTerminated,
                DiagnosticCategory::Internal,
                "session owner task terminated before becoming ready"@,
                false,
            ),
    {
        proof {
            reveal_strlit("session owner task terminated before becoming ready");
        }
        SessionOpenError::new(
            SessionOpenErrorKind::ActorStartFailed,
            DiagnosticCode::RuntimeTerminated,
            DiagnosticCategory::Internal,
            "session owner task terminated before becoming ready",
            false,
        )
    }

    /// Adds a second diagnostic; without one, an earlier one stays.
    pub fn with_secondary_diagnostic(self, diagnostic: Option<DiagnosticSummary>) -> (error: Self)
        ensures
            error@ == self@.with_secondary(optional_diagnostic(diagnostic)),
            error@ == (SessionOpenErrorView {
                secondary_diagnostic: match diagnostic {
                    Some(diagnostic) => Some(diagnostic@),
                    None => self@.secondary_diagnostic,
                },
                ..self@
            }),
    {
        let mut error = self;
        if let Some(diagnostic) = diagnostic {
            error.details.secondary_diagnostic = Some(diagnostic);
        }
        error
    }

    fn new(
        kind: SessionOpenErrorKind,
        code: DiagnosticCode,
        category: DiagnosticCategory,
        message: &'static str,
        retryable: bool,
    ) -> (error: Self)
        requires
            message@.len() <= 100,
        ensures
            error@ == SessionOpenErrorView::plain(kind, code, category, message@, retryable),
    {
        proof {
            error::lemma_text_bytes(message@);
        }
        SessionOpenError {
            kind,
            diagnostic: DiagnosticSummary::bounded_static(code, category, message, retryable),
            details: SessionOpenErrorDetails {
                session_id_mismatch: None,
                log_error: None,
                secondary_diagnostic: None,
            },
        }
    }

    pub fn redacted(&self) -> (shown: RedactedSessionOpenError)
        ensures
            self@.is_shown_as(shown),
    {
        let secondary_diagnostic = match &self.details.secondary_diagnostic {
            Some(diagnostic) => Some(diagnostic.redacted()),
            None => None,
        };
        RedactedSessionOpenError {
            kind: self.kind,
            diagnostic: self.diagnostic.redacted(),
            session_id_mismatch: self.details.session_id_mismatch,
            has_log_error: self.details.log_error.is_some(),
            secondary_diagnostic,
        }
    }

    /// The text shown for this failure.
    pub fn message(&self) -> (text: &'static str)
        ensures
            text@ == self@.message(),
    {
        match self.kind {
            SessionOpenErrorKind::InvalidConfiguration => "session configuration is invalid",
            SessionOpenErrorKind::InvalidManifest => "session manifest is invalid",
            SessionOpenErrorKind::SessionIdMismatch => "session identity does not match",
            SessionOpenErrorKind::BindingMismatch => "session bindings do not match",
            SessionOpenErrorKind::Log => "session log open failed",
            SessionOpenErrorKind::RecoveryUncertain => "session recovery is uncertain",
            SessionOpenErrorKind::ActorStartFailed => "session owner failed to start",
        }
    }
}

/// A failure to shut a Session down.
#[non_exhaustive]
#[derive(PartialEq, Eq)]
pub enum SessionShutdownError {
    Timeout(DiagnosticSummary),
    Durability(DiagnosticSummary),
    LogClose(DiagnosticSummary),
    ActorTerminated(DiagnosticSummary),
}

/// What a failure to shut a Session down shows of itself.
#[derive(Clone, Copy, Debug)]
pub struct RedactedSessionShutdownError {
    pub kind: &'static str,
    pub diagnostic: RedactedDiagnostic,
}

impl Clone for SessionShutdownError {
    fn clone(&self) -> (copy: Self)
        ensures
            copy.spec_diagnostic() == self.spec_diagnostic(),
            copy.spec_kind() == self.spec_kind(),
            copy is Timeout <==> self is Timeout,
            copy is Durability <==> self is Durability,
            copy is LogClose <==> self is LogClose,
    {
        match self {
            SessionShutdownError::Timeout(diagnostic) => SessionShutdownError::Timeout(
                diagnostic.clone(),
            ),
            SessionShutdownError::Durability(diagnostic) => SessionShutdownError::Durability(
                diagnostic.clone(),
            ),
            SessionShutdownError::LogClose(diagnostic) => SessionShutdownError::LogClose(
                diagnostic.clone(),
            ),
            SessionShutdownError::ActorTerminated(diagnostic) =>
                SessionShutdownError::ActorTerminated(diagnostic.clone()),
        }
    }
}

impl SessionShutdownError {
    pub open spec fn spec_diagnostic(self) -> DiagnosticView {
        match self {
            SessionShutdownError::Timeout(diagnostic) => diagnostic@,
            SessionShutdownError::Durability(diagnostic) => diagnostic@,
            SessionShutdownError::LogClose(diagnostic) => diagnostic@,
            SessionShutdownError::ActorTerminated(diagnostic) => diagnostic@,
        }
    }

    pub open spec fn spec_kind(self) -> Seq<char> {
        match self {
            SessionShutdownError::Timeout(_) => "Timeout"@,
            SessionShutdownError::Durability(_) => "Durability"@,
            SessionShutdownError::LogClose(_) => "LogClose"@,
            SessionShutdownError::ActorTerminated(_) => "ActorTerminated"@,
        }
    }

    pub open spec fn spec_message(self) -> Seq<char> {
        match self {
            SessionShutdownError::Timeout(_) => "session shutdown timed out"@,
            SessionShutdownError::Durability(_) => "session shutdown durability failed"@,
            SessionShutdownError::LogClose(_) => "session log close failed during shutdown"@,
            SessionShutdownError::ActorTerminated(_) =>
                "session owner task terminated unexpectedly"@,
        }
    }

    pub fn timeout() -> (error: Self)
        ensures
            error is Timeout,
            error.spec_diagnostic() == (DiagnosticView {
                code: DiagnosticCode::ShutdownTimeout,
                category: DiagnosticCategory::Cancellation,
                message: "session shutdown exceeded its configured timeout"@,
                retryable: false,
            }),
    {
        proof {
            reveal_strlit("session shutdown exceeded its configured timeout");
            error::lemma_text_bytes("session shutdown exceeded its configured timeout"@);
        }
        SessionShutdownError::Timeout(
            DiagnosticSummary::bounded_static(
                DiagnosticCode::ShutdownTimeout,
                DiagnosticCategory::Cancellation,
                "session shutdown exceeded its configured timeout",
                false,
            ),
        )
    }

    pub fn durability() -> (error: Self)
        ensures
            error is Durability,
            error.spec_diagnostic() == (DiagnosticView {
                code: DiagnosticCode::LogUnknownOutcome,
                category: DiagnosticCategory::Storage,
                message: "session shutdown did not reach durable completion"@,
                retryable: false,
            }),
    {
        proof {
            reveal_strlit("session shutdown did not reach durable completion");
            error::lemma_text_bytes("session shutdown did not reach durable completion"@);
        }
        SessionShutdownError::Durability(
            DiagnosticSummary::bounded_static(
                DiagnosticCode::LogUnknownOutcome,
                DiagnosticCategory::Storage,
                "session shutdown did not reach durable completion",
                false,
            ),
        )
    }

    pub fn log_close(kind: SessionLogErrorKind) -> (error: Self)
        ensures
            error is LogClose,
            error.spec_diagnostic() == (DiagnosticView {
                code: code_of(kind),
                category: DiagnosticCategory::Storage,
                message: "session log close failed"@,
                retryable: kind is Unavailable,
            }),
            error.spec_diagnostic().retryable <==> kind == SessionLogErrorKind::Unavailable,
            error.spec_diagnostic().category == DiagnosticCategory::Storage,
    {
        proof {
            reveal_strlit("session log close failed");
            error::lemma_text_bytes("session log close failed"@);
        }
        SessionShutdownError::LogClose(
            DiagnosticSummary::bounded_static(
                log_code(kind),
                DiagnosticCategory::Storage,
                "session log close failed",
                kind.is_retryable(),
            ),
        )
    }

    pub fn actor_terminated() -> (error: Self)
        ensures
            error is ActorTerminated,
            error.spec_diagnostic() == (DiagnosticView {
                code: DiagnosticCode::RuntimeTerminated,
                category: DiagnosticCategory::Internal,
                message: "session owner task terminated unexpectedly"@,
                retryable: false,
            }),
    {
        proof {
            reveal_strlit("session owner task terminated unexpectedly");
            error::lemma_text_bytes("session owner task terminated unexpectedly"@);
        }
        SessionShutdownError::ActorTerminated(
            DiagnosticSummary::bounded_static(
                DiagnosticCode::RuntimeTerminated,
                DiagnosticCategory::Internal,
                "session owner task terminated unexpectedly",
                false,
            ),
        )
    }

    fn diagnostic(&self) -> (diagnostic: &DiagnosticSummary)
        ensures
            diagnostic@ == self.spec_diagnostic(),
    {
        match self {
            SessionShutdownError::Timeout(diagnostic)
            | SessionShutdownError::Durability(diagnostic)
            | SessionShutdownError::LogClose(diagnostic)
            | SessionShutdownError::ActorTerminated(diagnostic) => diagnostic,
        }
    }

    pub fn redacted(&self) -> (shown: RedactedSessionShutdownError)
        ensures
            shown.kind@ == self.spec_kind(),
            self.spec_diagnostic().is_shown_as(shown.diagnostic),
    {
        RedactedSessionShutdownError {
            kind: shutdown_kind(self),
            diagnostic: self.diagnostic().redacted(),
        }
    }

    /// The text shown for this failure.
    pub fn message(&self) -> (text: &'static str)
        ensures
            text@ == self.spec_message(),
    {
        match self {
            SessionShutdownError::Timeout(_) => "session shutdown timed out",
            SessionShutdownError::Durability(_) => "session shutdown durability failed",
            SessionShutdownError::LogClose(_) => "session log close failed during shutdown",
            SessionShutdownError::ActorTerminated(_) =>
                "session owner task terminated unexpectedly",
        }
    }
}

/// The diagnostic code of a log failure.
pub open spec fn code_of(kind: SessionLogErrorKind) -> DiagnosticCode {
    match kind {
        SessionLogErrorKind::Conflict => DiagnosticCode::LogConflict,
        SessionLogErrorKind::Corrupt => DiagnosticCode::LogCorrupt,
        SessionLogErrorKind::UnknownOutcome => DiagnosticCode::LogUnknownOutcome,
        SessionLogErrorKind::NotInitialized => DiagnosticCode::InvalidSessionManifest,
        SessionLogErrorKind::AlreadyInitialized => DiagnosticCode::InvalidSessionManifest,
        SessionLogErrorKind::Closed => DiagnosticCode::SessionClosed,
        SessionLogErrorKind::Unavailable => DiagnosticCode::Internal,
        SessionLogErrorKind::Internal => DiagnosticCode::Internal,
    }
}

fn log_code(kind: SessionLogErrorKind) -> (code: DiagnosticCode)
    ensures
        code == code_of(kind),
{
    match kind {
        SessionLogErrorKind::Conflict => DiagnosticCode::LogConflict,
        SessionLogErrorKind::Corrupt => DiagnosticCode::LogCorrupt,
        SessionLogErrorKind::UnknownOutcome => DiagnosticCode::LogUnknownOutcome,
        SessionLogErrorKind::NotInitialized | SessionLogErrorKind::AlreadyInitialized =>
            DiagnosticCode::InvalidSessionManifest,
        SessionLogErrorKind::Closed => DiagnosticCode::SessionClosed,
        SessionLogErrorKind::Unavailable | SessionLogErrorKind::Internal =>
            DiagnosticCode::Internal,
    }
}

fn shutdown_kind(error: &SessionShutdownError) -> (kind: &'static str)
    ensures
        kind@ == error.spec_kind(),
{
    match error {
        SessionShutdownError::Timeout(_) => "Timeout",
        SessionShutdownError::Durability(_) => "Durability",
        SessionShutdownError::LogClose(_) => "LogClose",
        SessionShutdownError::ActorTerminated(_) => "ActorTerminated",
    }
}

/// A failure of a log is told by its own code where there is one; a log that is in the wrong state is an
/// invalid manifest, and what is unavailable or internal is internal.
pub proof fn law_log_failures_are_told_by_their_codes(kind: SessionLogErrorKind)
    ensures
        code_of(kind) == DiagnosticCode::LogConflict <==> kind == SessionLogErrorKind::Conflict,
        code_of(kind) == DiagnosticCode::LogCorrupt <==> kind == SessionLogErrorKind::Corrupt,
        code_of(kind) == DiagnosticCode::LogUnknownOutcome <==> kind
            == SessionLogErrorKind::UnknownOutcome,
        code_of(kind) == DiagnosticCode::SessionClosed <==> kind == SessionLogErrorKind::Closed,
        code_of(kind) == DiagnosticCode::InvalidSessionManifest <==> kind
            == SessionLogErrorKind::NotInitialized || kind
            == SessionLogErrorKind::AlreadyInitialized,
        code_of(kind) == DiagnosticCode::Internal <==> kind == SessionLogErrorKind::Unavailable
            || kind == SessionLogErrorKind::Internal,
{
}

/// What is printed of an error shows its kind, its codes, both identities of a mismatch, and whether
/// there is a log error; of every message it shows nothing but its length.
pub proof fn law_printed_errors_show_no_message(
    error: SessionOpenErrorView,
    shown: RedactedSessionOpenError,
)
    ensures
        error.is_shown_as(shown) <==> {
            &&& shown.kind == error.kind
            &&& shown.diagnostic.code == error.diagnostic.code
            &&& shown.diagnostic.category == error.diagnostic.category
            &&& shown.diagnostic.retryable == error.diagnostic.retryable
            &&& shown.diagnostic.message_bytes == vstd::utf8::encode_utf8(
                error.diagnostic.message,
            ).len()
            &&& shown.session_id_mismatch == error.session_id_mismatch
            &&& shown.has_log_error <==> error.log_error is Some
            &&& shown.secondary_diagnostic is Some <==> error.secondary_diagnostic is Some
            &&& shown.secondary_diagnostic matches Some(diagnostic) ==> {
                let second = error.secondary_diagnostic->0;
                &&& diagnostic.code == second.code && diagnostic.category == second.category
                &&& diagnostic.retryable == second.retryable
                &&& diagnostic.message_bytes == vstd::utf8::encode_utf8(second.message).len()
            }
        },
{
}

/// An error starts with exactly what it is told, and nothing else. A second diagnostic replaces an earlier
/// one and changes nothing else; the last one that is given stays.
pub proof fn law_errors_say_what_they_are_told(
    kind: SessionOpenErrorKind,
    code: DiagnosticCode,
    category: DiagnosticCategory,
    message: Seq<char>,
    retryable: bool,
    error: SessionOpenErrorView,
    first: DiagnosticView,
    second: Option<DiagnosticView>,
)
    ensures
        ({
            let plain = SessionOpenErrorView::plain(kind, code, category, message, retryable);
            &&& plain.kind == kind
            &&& plain.diagnostic.code == code && plain.diagnostic.category == category
            &&& plain.diagnostic.message == message && plain.diagnostic.retryable == retryable
            &&& plain.session_id_mismatch is None && plain.log_error is None
            &&& plain.secondary_diagnostic is None
        }),
        error.with_secondary(None) == error,
        ({
            let after = error.with_secondary(Some(first)).with_secondary(second);
            &&& after.secondary_diagnostic == if second is Some {
                second
            } else {
                Some(first)
            }
            &&& after.kind == error.kind && after.diagnostic == error.diagnostic
            &&& after.session_id_mismatch == error.session_id_mismatch
            &&& after.log_error == error.log_error
        }),
{
}

} // verus!
