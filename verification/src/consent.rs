//! The consent protocol: the pure decision of whether a gated operation
//! (an overwrite, a capability grant) may proceed, must be confirmed at the
//! terminal, or must fail closed because no terminal is attached. The
//! terminal itself is an adapter outside this library.

use vstd::prelude::*;

use crate::errors::ExtensionError;
use crate::permissions::Permissions;

verus! {

/// The decision for one gated operation. Transitions are one-shot: a
/// declined prompt is a terminal failure for the invocation.
#[derive(Clone, Copy, Debug, PartialEq, Eq, Structural)]
pub enum ConsentGate {
    /// The condition is bypassed; proceed without asking.
    Skip,
    /// An interactive terminal is attached: ask, with this default answer.
    Prompt { default_yes: bool },
    /// Consent is required but no terminal is attached: fail, never hang.
    FailClosed,
}

/// Decides one gated operation from three facts: whether consent is needed
/// at all, whether an explicit flag already granted it, and whether a
/// terminal is attached.
pub open spec fn gate_spec(
    required: bool,
    pre_accepted: bool,
    interactive: bool,
    default_yes: bool,
) -> ConsentGate {
    if !required || pre_accepted {
        ConsentGate::Skip
    } else if interactive {
        ConsentGate::Prompt { default_yes }
    } else {
        ConsentGate::FailClosed
    }
}

/// What a gate concludes once the prompt, if any, was answered: `Skip`
/// proceeds, a prompt proceeds only on "yes", and a closed gate fails with
/// `NonInteractiveConsentRequired` whatever the answer would have been.
pub open spec fn conclude_spec(gate: ConsentGate, answer: bool) -> Result<(), ExtensionError> {
    match gate {
        ConsentGate::Skip => Ok(()),
        ConsentGate::Prompt { .. } => if answer {
            Ok(())
        } else {
            Err(ExtensionError::ConsentDeclined)
        },
        ConsentGate::FailClosed => Err(ExtensionError::NonInteractiveConsentRequired),
    }
}

/// Evaluates one consent gate.
pub fn evaluate_gate(required: bool, pre_accepted: bool, interactive: bool, default_yes: bool)
    -> (g: ConsentGate)
    ensures
        g == gate_spec(required, pre_accepted, interactive, default_yes),
{
    if !required || pre_accepted {
        ConsentGate::Skip
    } else if interactive {
        ConsentGate::Prompt { default_yes }
    } else {
        ConsentGate::FailClosed
    }
}

/// Concludes a gate from the operator's answer; for `Skip` and `FailClosed`
/// the answer is irrelevant.
pub fn conclude_gate(gate: ConsentGate, answer: bool) -> (r: Result<(), ExtensionError>)
    ensures
        r == conclude_spec(gate, answer),
{
    match gate {
        ConsentGate::Skip => Ok(()),
        ConsentGate::Prompt { .. } => if answer {
            Ok(())
        } else {
            Err(ExtensionError::ConsentDeclined)
        },
        ConsentGate::FailClosed => Err(ExtensionError::NonInteractiveConsentRequired),
    }
}

/// Gates a capability grant. No question is asked when the extension
/// requests nothing, or when an explicit acceptance flag is present; a
/// prompt defaults to "no".
pub fn permission_gate(permissions: &Permissions, pre_accepted: bool, interactive: bool) -> (g:
    ConsentGate)
    ensures
        g == gate_spec(!permissions.allow_none_spec(), pre_accepted, interactive, false),
{
    evaluate_gate(!permissions.is_allow_none(), pre_accepted, interactive, false)
}

/// Gates the replacement of a differing installed extension. No question is
/// asked when the overwrite flag is present; a prompt defaults to "yes".
pub fn overwrite_gate(conflict: bool, overwrite_flag: bool, interactive: bool) -> (g: ConsentGate)
    ensures
        g == gate_spec(conflict, overwrite_flag, interactive, true),
{
    evaluate_gate(conflict, overwrite_flag, interactive, true)
}

/// In a non-interactive context, an operation that still requires consent
/// (no skip condition held) fails with `NonInteractiveConsentRequired`
/// rather than blocking, whatever the operator would have answered.
pub proof fn lemma_fail_closed(
    required: bool,
    pre_accepted: bool,
    interactive: bool,
    default_yes: bool,
    answer: bool,
)
    requires
        required,
        !pre_accepted,
        !interactive,
    ensures
        conclude_spec(gate_spec(required, pre_accepted, interactive, default_yes), answer) == Err::<
            (),
            ExtensionError,
        >(ExtensionError::NonInteractiveConsentRequired),
{
}

} // verus!
