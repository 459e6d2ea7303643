//! Permission state as data, and the system-settings deep links.
//!
//! Probing the OS for these permissions is the application's work; this
//! module holds the shape of the answer and the one piece of logic — which
//! settings pane a name maps to.

use vstd::prelude::*;
use vstd::string::StringExecFns;

verus! {

broadcast use vstd::string::group_string_axioms;

/// The three permissions the host cares about. `microphone` is one of the
/// platform's words (`not_determined`, `authorized`, `denied`,
/// `restricted`), or `unknown`/`error` when the helper could not say.
#[derive(Debug, Clone, PartialEq, Eq)]
pub struct PermissionStatus {
    pub microphone: String,
    pub accessibility: bool,
    pub input_monitoring: bool,
}

/// The deep link opened for each known pane name.
pub fn preferences_url(pane: &str) -> (r: Result<String, String>)
    ensures
        pane@ == "microphone"@ ==> (r matches Ok(u) && u@
            == "x-apple.systempreferences:com.apple.preference.security?Privacy_Microphone"@),
        pane@ == "accessibility"@ ==> (r matches Ok(u) && u@
            == "x-apple.systempreferences:com.apple.preference.security?Privacy_Accessibility"@),
        pane@ == "input_monitoring"@ ==> (r matches Ok(u) && u@
            == "x-apple.systempreferences:com.apple.preference.security?Privacy_ListenEvent"@),
        pane@ != "microphone"@ && pane@ != "accessibility"@ && pane@ != "input_monitoring"@
            ==> (r matches Err(m) && m@ == "Unknown pane: "@ + pane@),
{
    proof {
        reveal_strlit("microphone");
        reveal_strlit("accessibility");
        reveal_strlit("input_monitoring");
        assert("microphone"@.len() == 10 && "accessibility"@.len() == 13
            && "input_monitoring"@.len() == 16);
    }
    if crate::util::str_eq(pane, "microphone") {
        Ok(
            String::from_str(
                "x-apple.systempreferences:com.apple.preference.security?Privacy_Microphone",
            ),
        )
    } else if crate::util::str_eq(pane, "accessibility") {
        Ok(
            String::from_str(
                "x-apple.systempreferences:com.apple.preference.security?Privacy_Accessibility",
            ),
        )
    } else if crate::util::str_eq(pane, "input_monitoring") {
        Ok(
            String::from_str(
                "x-apple.systempreferences:com.apple.preference.security?Privacy_ListenEvent",
            ),
        )
    } else {
        let mut m = String::from_str("Unknown pane: ");
        m.append(pane);
        Err(m)
    }
}

} // verus!
