//! The bridge's error taxonomy. Every failure of a helper call is one of
//! these; all are recoverable at the caller and none ends the host process.

use vstd::prelude::*;
use vstd::string::StringExecFns;

verus! {

/// Why a helper call failed.
#[derive(Debug, PartialEq, Eq)]
pub enum BridgeError {
    /// The helper executable is missing; the payload is the path looked at.
    HelperNotFound(String),
    /// The OS refused to start the helper; the payload is its message.
    SpawnFailed(String),
    /// The helper was found dead and could not be respawned.
    HelperUnavailable,
    /// Writing the request (or reading, other than end-of-stream) failed.
    TransportError(String),
    /// No reply arrived within the configured window.
    HelperTimeout { command: String, elapsed_ms: u64 },
    /// The helper closed its output before replying.
    HelperClosed,
    /// The reply was not a well-formed response; the payload is the raw
    /// line. The handle is dropped with it: the conversation may be out
    /// of step, so the next call starts a fresh helper.
    ProtocolError(String),
    /// The helper answered `ok: false`; the payload is its error message.
    HelperReportedError(String),
}

/// The human-readable message for each failure.
pub open spec fn describe_spec(e: BridgeError) -> Seq<char> {
    match e {
        BridgeError::HelperNotFound(p) => "helper executable not found at "@ + p@,
        BridgeError::SpawnFailed(m) => "failed to spawn helper: "@ + m@,
        BridgeError::HelperUnavailable => "helper process not running after restart"@,
        BridgeError::TransportError(m) => m@,
        BridgeError::HelperTimeout { command, elapsed_ms } => "helper timeout after "@
            + crate::util::dec_digits((elapsed_ms / 1000) as nat) + "s (cmd: "@ + command@
            + "). Process killed."@,
        BridgeError::HelperClosed => "helper process closed unexpectedly"@,
        BridgeError::ProtocolError(raw) => "JSON parse error (raw: "@ + raw@ + ")"@,
        BridgeError::HelperReportedError(m) => m@,
    }
}

impl BridgeError {
    /// The message shown to the caller, exactly [`describe_spec`].
    pub fn describe(&self) -> (r: String)
        ensures
            r@ == describe_spec(*self),
    {
        match self {
            BridgeError::HelperNotFound(p) => {
                let mut out = String::from_str("helper executable not found at ");
                out.append(p.as_str());
                out
            },
            BridgeError::SpawnFailed(m) => {
                let mut out = String::from_str("failed to spawn helper: ");
                out.append(m.as_str());
                out
            },
            BridgeError::HelperUnavailable => String::from_str(
                "helper process not running after restart",
            ),
            BridgeError::TransportError(m) => m.clone(),
            BridgeError::HelperTimeout { command, elapsed_ms } => {
                let mut out = String::from_str("helper timeout after ");
                let secs = crate::util::u64_to_dec(*elapsed_ms / 1000);
                out.append(secs.as_str());
                out.append("s (cmd: ");
                out.append(command.as_str());
                out.append("). Process killed.");
                proof {
                    assert(out@ =~= describe_spec(*self));
                }
                out
            },
            BridgeError::HelperClosed => String::from_str("helper process closed unexpectedly"),
            BridgeError::ProtocolError(raw) => {
                let mut out = String::from_str("JSON parse error (raw: ");
                out.append(raw.as_str());
                out.append(")");
                proof {
                    assert(out@ =~= describe_spec(*self));
                }
                out
            },
            BridgeError::HelperReportedError(m) => m.clone(),
        }
    }
}

} // verus!
