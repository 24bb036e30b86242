//! Checks and decisions around one call to a text-generation service:
//! the prompt's size, the reply's validity, and what a finished, failed or
//! timed-out call amounts to.

use crate::text::{byte_len, contains_text, occurs_in};
use vstd::prelude::*;

verus! {

/// Largest prompt, in bytes, that is accepted.
pub const MAX_PROMPT_BYTES: usize = 10_000;

/// Time allowed for one call, in milliseconds.
pub const CALL_TIMEOUT_MS: u64 = 30_000;

/// Why a call to the service came to nothing.
#[derive(Debug)]
pub enum AIWorkflowError {
    /// No reply arrived within `timeout` milliseconds.
    NetworkTimeout { timeout: u64 },
    /// The reply, or the call itself, was not usable; `reason` says why.
    InvalidResponse { reason: String },
}

/// How one call to the service ended.
#[derive(Debug)]
pub enum CallOutcome {
    /// The time allowed ran out first.
    TimedOut,
    /// The call ended with an error.
    Failed(AIWorkflowError),
    /// The service replied.
    Replied(String),
}

/// Accepts a prompt of at most [`MAX_PROMPT_BYTES`] bytes and hands it
/// back; a longer one is refused with the words "Input too long".
pub fn validate_text_length(text: String) -> (checked: Result<String, String>)
    ensures
        match checked {
            Ok(accepted) => byte_len(text@) <= MAX_PROMPT_BYTES && accepted == text,
            Err(complaint) => byte_len(text@) > MAX_PROMPT_BYTES && complaint@
                == "Input too long"@,
        },
{
    if text.as_str().as_bytes().len() > MAX_PROMPT_BYTES {
        return Err("Input too long".to_owned());
    }
    Ok(text)
}

/// A reply is valid unless it is empty.
pub fn validate_response(response: &str) -> (checked: Result<(), AIWorkflowError>)
    ensures
        match checked {
            Ok(_) => response@.len() > 0,
            Err(AIWorkflowError::InvalidResponse { reason }) => response@.len() == 0 && reason@
                == "Empty response"@,
            Err(AIWorkflowError::NetworkTimeout { .. }) => false,
        },
{
    if response.is_empty() {
        return Err(AIWorkflowError::InvalidResponse { reason: "Empty response".to_owned() });
    }
    Ok(())
}

/// What a call amounts to once it has ended: a timeout becomes
/// `NetworkTimeout` with the time allowed, an error is passed on, and a
/// reply is passed on if it is valid.
pub fn settle_call(outcome: CallOutcome) -> (result: Result<String, AIWorkflowError>)
    ensures
        match outcome {
            CallOutcome::TimedOut => result == Err::<String, AIWorkflowError>(
                AIWorkflowError::NetworkTimeout { timeout: CALL_TIMEOUT_MS },
            ),
            CallOutcome::Failed(error) => result == Err::<String, AIWorkflowError>(error),
            CallOutcome::Replied(response) => if response@.len() > 0 {
                result == Ok::<String, AIWorkflowError>(response)
            } else {
                result matches Err(AIWorkflowError::InvalidResponse { reason }) && reason@
                    == "Empty response"@
            },
        },
{
    match outcome {
        CallOutcome::TimedOut => Err(AIWorkflowError::NetworkTimeout { timeout: CALL_TIMEOUT_MS }),
        CallOutcome::Failed(error) => Err(error),
        CallOutcome::Replied(response) => {
            match validate_response(response.as_str()) {
                Ok(_) => Ok(response),
                Err(invalid) => Err(invalid),
            }
        },
    }
}

/// The reply that the stand-in service gives to a prompt.
pub open spec fn simulated_reply_text(prompt: Seq<char>, temperature: Seq<char>) -> Seq<char> {
    "AI response to: '"@ + prompt + "' (temp: "@ + temperature + ")"@
}

/// The stand-in for the service: a prompt that holds the word "error"
/// fails; any other prompt is echoed with the temperature, which is given
/// as it is to be shown.
pub fn simulate_reply(prompt: &str, temperature: &str) -> (result: Result<String, AIWorkflowError>)
    ensures
        match result {
            Ok(reply) => !occurs_in("error"@, prompt@) && reply@ == simulated_reply_text(
                prompt@,
                temperature@,
            ),
            Err(AIWorkflowError::InvalidResponse { reason }) => occurs_in("error"@, prompt@)
                && reason@ == "Test error triggered"@,
            Err(AIWorkflowError::NetworkTimeout { .. }) => false,
        },
{
    if contains_text(prompt, "error") {
        return Err(
            AIWorkflowError::InvalidResponse { reason: "Test error triggered".to_owned() },
        );
    }
    let mut reply = "AI response to: '".to_owned();
    reply.append(prompt);
    reply.append("' (temp: ");
    reply.append(temperature);
    reply.append(")");
    Ok(reply)
}

} // verus!
