//! The global dictation hotkey: which accelerators are valid and what
//! changing the binding involves.

use vstd::prelude::*;

verus! {

/// What `global_hotkey::hotkey::HotKey::from_str` makes of `text`: the id of
/// the parsed hotkey (its modifier bits and key code), or `None` when the
/// text is not an accelerator.
pub uninterp spec fn accelerator_id(text: Seq<char>) -> Option<u32>;

/// `HotKey::from_str` from the `global-hotkey` crate (the shortcut type of
/// the global-shortcut plugin). The contract claims only that the result is
/// `accelerator_id(text)`: the id of the hotkey on success, `None` on a
/// parse error.
#[verifier::external_body]
fn parse_accelerator(text: &str) -> (id: Option<u32>)
    ensures
        id == accelerator_id(text@),
{
    match text.parse::<global_hotkey::hotkey::HotKey>() {
        Ok(hotkey) => Some(hotkey.id),
        Err(_) => None,
    }
}

/// Whether `text` names a hotkey the shortcut plugin can register.
pub fn is_valid_accelerator(text: &str) -> (valid: bool)
    ensures
        valid == accelerator_id(text@) is Some,
{
    parse_accelerator(text).is_some()
}

/// The message for an accelerator that does not parse.
pub open spec fn invalid_accelerator_message(requested: Seq<char>) -> Seq<char> {
    "not a valid accelerator: "@ + requested + " (try Ctrl+Alt+Space)"@
}

/// The message for an accelerator the system refused to register.
pub open spec fn registration_refused_message(requested: Seq<char>, reason: Seq<char>) -> Seq<char> {
    "could not register "@ + requested + ": "@ + reason + " (another app may already own it)"@
}

/// The message for `requested` when it does not parse as an accelerator.
pub fn invalid_accelerator(requested: &str) -> (msg: String)
    ensures
        msg@ == invalid_accelerator_message(requested@),
{
    let mut msg = String::from_str("not a valid accelerator: ");
    msg.append(requested);
    msg.append(" (try Ctrl+Alt+Space)");
    msg
}

/// How to move the hotkey from one binding to another.
pub struct ShortcutPlan {
    /// The previous binding parses, so it is unregistered before the new one
    /// is registered, and registered again should the new one be refused,
    /// so that the app is never left without a hotkey.
    pub previous_is_bound: bool,
}

/// How to move the hotkey from `previous` to `requested`, or the message to
/// show when `requested` is not an accelerator.
pub fn plan_shortcut_change(previous: &str, requested: &str) -> (plan: Result<ShortcutPlan, String>)
    ensures
        match plan {
            Ok(p) => accelerator_id(requested@) is Some && p.previous_is_bound == accelerator_id(
                previous@,
            ) is Some,
            Err(msg) => accelerator_id(requested@) is None && msg@ == invalid_accelerator_message(
                requested@,
            ),
        },
{
    if !is_valid_accelerator(requested) {
        return Err(invalid_accelerator(requested));
    }
    Ok(ShortcutPlan { previous_is_bound: is_valid_accelerator(previous) })
}

/// The message for a refused registration of `requested`, with the
/// system's `reason`.
pub fn registration_refused(requested: &str, reason: &str) -> (msg: String)
    ensures
        msg@ == registration_refused_message(requested@, reason@),
{
    let mut msg = String::from_str("could not register ");
    msg.append(requested);
    msg.append(": ");
    msg.append(reason);
    msg.append(" (another app may already own it)");
    msg
}

} // verus!
