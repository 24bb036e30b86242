//! Input checks and outcome bookkeeping around a guarded text analysis call.

use crate::breaker::{CircuitBreaker, GuardState, DEFAULT_THRESHOLD};
use crate::text::{byte_len, unicode_alphanumeric, unicode_whitespace};
use vstd::prelude::*;

verus! {

/// Largest input, in bytes, that is accepted for analysis.
pub const MAX_INPUT_BYTES: usize = 10_000;

/// Why an analysis was not carried out, or failed.
#[derive(Debug)]
pub enum AnalysisError {
    /// The input holds no character.
    EmptyInput,
    /// The input is longer than [`MAX_INPUT_BYTES`].
    InputTooLarge,
    /// The analysis service reported a failure.
    ApiError(String),
    /// The guard holds calls back.
    CircuitBreakerOpen,
}

impl AnalysisError {
    /// The wording of each error.
    pub open spec fn message_text(self) -> Seq<char> {
        match self {
            AnalysisError::EmptyInput => "Input text is empty"@,
            AnalysisError::InputTooLarge => "Input text too large"@,
            AnalysisError::ApiError(detail) => "API error: "@ + detail@,
            AnalysisError::CircuitBreakerOpen => "Circuit breaker open"@,
        }
    }

    /// The error in words, for display.
    pub fn message(&self) -> (text: String)
        ensures
            text@ == self.message_text(),
    {
        match self {
            AnalysisError::EmptyInput => "Input text is empty".to_owned(),
            AnalysisError::InputTooLarge => "Input text too large".to_owned(),
            AnalysisError::ApiError(detail) => "API error: ".to_owned().concat(detail.as_str()),
            AnalysisError::CircuitBreakerOpen => "Circuit breaker open".to_owned(),
        }
    }
}

/// The punctuation marks that survive sanitizing.
pub open spec fn is_kept_punctuation(c: char) -> bool {
    c == '.' || c == ',' || c == '!' || c == '?' || c == '\'' || c == '-'
}

/// A character survives sanitizing when it is alphanumeric, white space, or
/// one of the kept punctuation marks.
pub open spec fn is_permitted(c: char) -> bool {
    unicode_alphanumeric(c) || unicode_whitespace(c) || is_kept_punctuation(c)
}

/// The permitted characters of `input`, in their order.
pub open spec fn sanitized(input: Seq<char>) -> Seq<char> {
    input.filter(|c: char| is_permitted(c))
}

/// Whether `c` is one of the kept punctuation marks.
pub fn keeps_punctuation(c: char) -> (kept: bool)
    ensures
        kept == is_kept_punctuation(c),
{
    c == '.' || c == ',' || c == '!' || c == '?' || c == '\'' || c == '-'
}

/// Whether a character survives sanitizing, given what the Unicode tables
/// say of it.
pub fn keeps_char(c: char, alphanumeric: bool, whitespace: bool) -> (kept: bool)
    ensures
        kept == (alphanumeric || whitespace || is_kept_punctuation(c)),
{
    alphanumeric || whitespace || keeps_punctuation(c)
}

/// Text analyzer front end: checks inputs and keeps a guard on the
/// analysis service.
pub struct TextAnalyzer {
    circuit_breaker: CircuitBreaker,
}

impl View for TextAnalyzer {
    type V = GuardState;

    /// The state of the analyzer's guard.
    closed spec fn view(&self) -> GuardState {
        self.circuit_breaker@
    }
}

impl TextAnalyzer {
    /// An analyzer whose guard has the default threshold and no recorded failure.
    pub fn new() -> (made: Result<Self, AnalysisError>)
        ensures
            made matches Ok(analyzer) && analyzer@ == GuardState::fresh(DEFAULT_THRESHOLD as nat),
    {
        Ok(TextAnalyzer { circuit_breaker: CircuitBreaker::new() })
    }

    /// Checks the input's size and strips every character that is not permitted.
    pub fn sanitize_input(&self, input: &str) -> (result: Result<String, AnalysisError>)
        ensures
            match result {
                Ok(cleaned) => input@.len() > 0 && byte_len(input@) <= MAX_INPUT_BYTES
                    && cleaned@ == sanitized(input@),
                Err(AnalysisError::EmptyInput) => input@.len() == 0,
                Err(AnalysisError::InputTooLarge) => input@.len() > 0 && byte_len(input@)
                    > MAX_INPUT_BYTES,
                Err(_) => false,
            },
    {
        if input.is_empty() {
            return Err(AnalysisError::EmptyInput);
        }
        if input.as_bytes().len() > MAX_INPUT_BYTES {
            return Err(AnalysisError::InputTooLarge);
        }
        let mut cleaned = String::new();
        let chars = input.chars();
        proof {
            broadcast use vstd::string::axiom_spec_iter;
            reveal(Seq::filter);
        }
        let ghost mut seen: int = 0;
        for c in it: chars
            invariant
                it.seq() == input@,
                seen == it.index(),
                input@.len() > 0,
                byte_len(input@) <= MAX_INPUT_BYTES,
                cleaned@ == sanitized(input@.take(seen)),
        {
            proof {
                reveal(Seq::filter);
                assert(input@.take(seen + 1).drop_last() == input@.take(seen));
                seen = seen + 1;
            }
            if keeps_char(c, c.is_alphanumeric(), c.is_whitespace()) {
                cleaned.push(c);
            }
        }
        proof {
            assert(input@.take(seen) == input@);
        }
        Ok(cleaned)
    }

    /// First half of a guarded analysis: checks and sanitizes the input, then
    /// asks the guard. Hands back the text to send to the analysis service,
    /// or the reason why no call is to be made. The input is judged before
    /// the guard is asked.
    pub fn begin_analysis(&self, input: &str) -> (result: Result<String, AnalysisError>)
        ensures
            match result {
                Ok(request) => input@.len() > 0 && byte_len(input@) <= MAX_INPUT_BYTES
                    && self@.permits() && request@ == sanitized(input@),
                Err(AnalysisError::EmptyInput) => input@.len() == 0,
                Err(AnalysisError::InputTooLarge) => input@.len() > 0 && byte_len(input@)
                    > MAX_INPUT_BYTES,
                Err(AnalysisError::CircuitBreakerOpen) => input@.len() > 0 && byte_len(input@)
                    <= MAX_INPUT_BYTES && !self@.permits(),
                Err(AnalysisError::ApiError(_)) => false,
            },
    {
        match self.sanitize_input(input) {
            Ok(request) => {
                if self.circuit_breaker.can_execute() {
                    Ok(request)
                } else {
                    Err(AnalysisError::CircuitBreakerOpen)
                }
            },
            Err(refusal) => Err(refusal),
        }
    }

    /// Second half of a guarded analysis: records on the guard how the call
    /// to the analysis service ended, and hands the outcome back unchanged.
    pub fn finish_analysis<T>(&mut self, outcome: Result<T, AnalysisError>) -> (result: Result<
        T,
        AnalysisError,
    >)
        ensures
            result == outcome,
            outcome is Ok ==> final(self)@ == old(self)@.after_success(),
            outcome is Err ==> final(self)@ == old(self)@.after_failure(),
    {
        match outcome {
            Ok(analysis) => {
                self.circuit_breaker.record_success();
                Ok(analysis)
            },
            Err(failure) => {
                self.circuit_breaker.record_failure();
                Err(failure)
            },
        }
    }
}

} // verus!
