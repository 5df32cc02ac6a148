//! The "remove this bot" confirmation.
//!
//! Keeping or deleting the logs is part of the same decision, so it is one
//! dialog rather than two questions in a row.
use vstd::prelude::*;
use vstd::string::*;

verus! {

/// What the user chose. Returned only when they went through with it.
#[derive(Debug, Clone, Copy, PartialEq, Eq, Structural)]
pub struct RemoveChoice {
    pub delete_logs: bool,
}

/// What is asked.
pub fn question(name: &str, config_path: &str) -> (r: String)
    ensures
        r@ == "Remove the bot \""@ + name@
            + "\"?\r\n\r\nIt will be stopped, and this file deleted:\r\n"@ + config_path@
            + "\r\n\r\nThis cannot be undone."@,
{
    let mut out = String::from_str("Remove the bot \"");
    out.append(name);
    out.append("\"?\r\n\r\nIt will be stopped, and this file deleted:\r\n");
    out.append(config_path);
    out.append("\r\n\r\nThis cannot be undone.");
    out
}

/// What the box about the logs says where there are none; it cannot be ticked
/// then.
pub fn logs_label(has_logs: bool) -> (r: Option<&'static str>)
    ensures
        match r {
            Some(text) => !has_logs && text@ == "Also delete this bot's &logs (none saved)"@,
            None => has_logs,
        },
{
    if has_logs {
        None
    } else {
        Some("Also delete this bot's &logs (none saved)")
    }
}

/// What was chosen, where the user went through with it.
pub open spec fn chosen(confirmed: bool, has_logs: bool, ticked: bool) -> Option<RemoveChoice> {
    if confirmed {
        Some(RemoveChoice { delete_logs: has_logs && ticked })
    } else {
        None
    }
}

/// What the answer comes to. `None` means cancelled: nothing should be deleted.
/// Logs that are not there are never deleted.
pub fn choice(confirmed: bool, has_logs: bool, ticked: bool) -> (r: Option<RemoveChoice>)
    ensures
        r == chosen(confirmed, has_logs, ticked),
{
    if confirmed {
        Some(RemoveChoice { delete_logs: has_logs && ticked })
    } else {
        None
    }
}

/// Nothing is removed without a yes, and no logs without a tick.
pub proof fn nothing_goes_without_a_yes(confirmed: bool, has_logs: bool, ticked: bool)
    ensures
        chosen(confirmed, has_logs, ticked) is Some <==> confirmed,
        (chosen(confirmed, has_logs, ticked) matches Some(choice) && choice.delete_logs)
            <==> confirmed && has_logs && ticked,
{
}

} // verus!
