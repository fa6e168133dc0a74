//! Diagnostics that may leave the process.

use vstd::prelude::*;
use vstd::utf8;

verus! {

/// The longest text that a diagnostic may carry, in bytes.
pub const BOUNDED_TEXT_BYTES: usize = 4096;

/// A text of bounded length.
#[derive(PartialEq, Eq)]
pub struct BoundedText {
    text: String,
}

/// A text was too long.
#[derive(Clone, Copy, Debug, PartialEq, Eq, Structural)]
pub struct BoundedTextError;

impl View for BoundedText {
    type V = Seq<char>;

    closed spec fn view(&self) -> Seq<char> {
        self.text@
    }
}

/// The length of a text in bytes.
pub open spec fn text_bytes(text: Seq<char>) -> nat {
    utf8::encode_utf8(text).len()
}

impl Clone for BoundedText {
    fn clone(&self) -> (copy: Self)
        ensures
            copy@ == self@,
    {
        proof {
            use_type_invariant(&*self);
        }
        BoundedText { text: self.text.as_str().to_owned() }
    }
}

impl BoundedText {
    #[verifier::type_invariant]
    spec fn is_bounded(&self) -> bool {
        text_bytes(self.text@) <= BOUNDED_TEXT_BYTES
    }

    pub fn new(text: &str) -> (result: Result<Self, BoundedTextError>)
        ensures
            result is Ok <==> text_bytes(text@) <= BOUNDED_TEXT_BYTES,
            result matches Ok(bounded) ==> bounded@ == text@,
    {
        if text.as_bytes().len() > BOUNDED_TEXT_BYTES {
            return Err(BoundedTextError);
        }
        Ok(BoundedText { text: text.to_owned() })
    }

    pub fn as_str(&self) -> (text: &str)
        ensures
            text@ == self@,
    {
        self.text.as_str()
    }

    pub fn byte_len(&self) -> (length: usize)
        ensures
            length == text_bytes(self@),
            length <= BOUNDED_TEXT_BYTES,
    {
        proof {
            use_type_invariant(&*self);
        }
        self.text.as_str().as_bytes().len()
    }
}

#[derive(Clone, Copy, Debug, PartialEq, Eq, Hash, Structural)]
pub enum DiagnosticCategory {
    Configuration,
    Model,
    Tool,
    Policy,
    Context,
    Storage,
    Cancellation,
    Internal,
}

#[derive(Clone, Copy, Debug, PartialEq, Eq, Hash, Structural)]
pub enum DiagnosticCode {
    InvalidConfiguration,
    InvalidSessionManifest,
    ModelMismatch,
    ModelTimeout,
    ModelMalformedResponse,
    ModelUnavailable,
    RuntimeTerminated,
    ContextFailed,
    PolicyDenied,
    PolicyFailed,
    ToolNotFound,
    ToolTimeout,
    ToolFailed,
    InteractionNotFound,
    InteractionKindMismatch,
    TurnBudgetExceeded,
    LogConflict,
    LogCorrupt,
    LogUnknownOutcome,
    SessionClosed,
    ShutdownTimeout,
    Internal,
}

/// One diagnostic.
#[derive(PartialEq, Eq)]
pub struct DiagnosticSummary {
    pub code: DiagnosticCode,
    pub category: DiagnosticCategory,
    pub message: BoundedText,
    pub retryable: bool,
}

/// What a diagnostic says.
pub struct DiagnosticView {
    pub code: DiagnosticCode,
    pub category: DiagnosticCategory,
    pub message: Seq<char>,
    pub retryable: bool,
}

/// What a diagnostic shows of itself: the length of its message in place of the message.
#[derive(Clone, Copy, Debug, PartialEq, Eq, Structural)]
pub struct RedactedDiagnostic {
    pub code: DiagnosticCode,
    pub category: DiagnosticCategory,
    pub message_bytes: usize,
    pub retryable: bool,
}

impl View for DiagnosticSummary {
    type V = DiagnosticView;

    open spec fn view(&self) -> DiagnosticView {
        DiagnosticView {
            code: self.code,
            category: self.category,
            message: self.message@,
            retryable: self.retryable,
        }
    }
}

impl Clone for DiagnosticSummary {
    fn clone(&self) -> (copy: Self)
        ensures
            copy@ == self@,
    {
        DiagnosticSummary {
            code: self.code,
            category: self.category,
            message: self.message.clone(),
            retryable: self.retryable,
        }
    }
}

impl DiagnosticView {
    pub open spec fn is_shown_as(self, shown: RedactedDiagnostic) -> bool {
        &&& shown.code == self.code
        &&& shown.category == self.category
        &&& shown.message_bytes == text_bytes(self.message)
        &&& shown.retryable == self.retryable
    }
}

impl DiagnosticSummary {
    pub fn new(
        code: DiagnosticCode,
        category: DiagnosticCategory,
        message: BoundedText,
        retryable: bool,
    ) -> (diagnostic: Self)
        ensures
            diagnostic@ == (DiagnosticView { code, category, message: message@, retryable }),
    {
        DiagnosticSummary { code, category, message, retryable }
    }

    /// A diagnostic with a fixed text, which must fit.
    pub fn bounded_static(
        code: DiagnosticCode,
        category: DiagnosticCategory,
        message: &'static str,
        retryable: bool,
    ) -> (diagnostic: Self)
        requires
            text_bytes(message@) <= BOUNDED_TEXT_BYTES,
        ensures
            diagnostic@ == (DiagnosticView { code, category, message: message@, retryable }),
    {
        DiagnosticSummary::new(code, category, BoundedText { text: message.to_owned() }, retryable)
    }

    pub fn redacted(&self) -> (shown: RedactedDiagnostic)
        ensures
            self@.is_shown_as(shown),
    {
        RedactedDiagnostic {
            code: self.code,
            category: self.category,
            message_bytes: self.message.byte_len(),
            retryable: self.retryable,
        }
    }
}

/// A character takes at most four bytes.
pub proof fn lemma_text_bytes(text: Seq<char>)
    ensures
        text_bytes(text) <= 4 * text.len(),
    decreases text.len(),
{
    if text.len() > 0 {
        lemma_text_bytes(text.drop_first());
        utf8::encode_utf8_first_scalar(text);
    }
}

} // verus!
