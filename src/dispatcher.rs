//! The command dispatcher of a node: from the key of an incoming command to
//! the action that the node performs.

use vstd::prelude::*;
use vstd::string::*;
use crate::orb_actions::Command;

verus! {

/// The shell action of the reboot command.
pub const REBOOT_SHELL: &'static str = "sudo reboot";

/// The shell action of the shutdown command.
pub const SHUTDOWN_SHELL: &'static str = "shutdown now";

/// The report of the gimbal reset command, which runs no shell action.
pub const RESET_GIMBAL_REPORT: &'static str = "Reset gimbal command executed successfully";

/// Where the final `/`-separated segment of `s` starts.
pub open spec fn segment_start(s: Seq<char>) -> int
    decreases s.len(),
{
    if s.len() == 0 {
        0
    } else if s.last() == '/' {
        s.len() as int
    } else {
        segment_start(s.drop_last())
    }
}

/// The final `/`-separated segment of `s`.
pub open spec fn last_segment(s: Seq<char>) -> Seq<char> {
    s.subrange(segment_start(s), s.len() as int)
}

/// The report for a command key whose final segment is no command token.
pub open spec fn unknown_command_text(key: Seq<char>) -> Seq<char> {
    "Error: Unknown command '"@ + key + "'"@
}

/// What the dispatcher does with one command.
#[derive(Debug, PartialEq, Eq)]
pub enum Dispatch {
    /// Run this shell action and log its outcome.
    RunShell(String),
    /// Run nothing; log this text.
    Report(String),
}

/// The dispatcher's decision, over views.
pub enum DispatchView {
    RunShell(Seq<char>),
    Report(Seq<char>),
}

impl View for Dispatch {
    type V = DispatchView;

    open spec fn view(&self) -> DispatchView {
        match self {
            Dispatch::RunShell(s) => DispatchView::RunShell(s@),
            Dispatch::Report(s) => DispatchView::Report(s@),
        }
    }
}

/// The decision for a command whose key is `key`.
pub open spec fn spec_dispatch(key: Seq<char>) -> DispatchView {
    match Command::spec_parse(last_segment(key)) {
        Ok(Command::Reboot) => DispatchView::RunShell(REBOOT_SHELL@),
        Ok(Command::Shutdown) => DispatchView::RunShell(SHUTDOWN_SHELL@),
        Ok(Command::ResetGimbal) => DispatchView::Report(RESET_GIMBAL_REPORT@),
        Err(_) => DispatchView::Report(unknown_command_text(key)),
    }
}

/// The final `/`-separated segment of `s`.
pub fn final_segment(s: &str) -> (r: &str)
    ensures
        r@ == last_segment(s@),
{
    let n = s.unicode_len();
    let mut i: usize = n;
    assert(s@.subrange(0, n as int) =~= s@);
    while i > 0
        invariant
            i <= n,
            n == s@.len(),
            segment_start(s@) == segment_start(s@.subrange(0, i as int)),
        ensures
            segment_start(s@) == i,
        decreases i,
    {
        assert(s@.subrange(0, i as int).drop_last() =~= s@.subrange(0, i - 1));
        if s.get_char(i - 1) == '/' {
            break;
        }
        i = i - 1;
        if i == 0 {
            assert(s@.subrange(0, 0).len() == 0);
        }
    }
    s.substring_char(i, n)
}

/// Decides what to do with the command that arrived on `key`: the final
/// segment of the key selects the command, and a segment that is no command
/// token is reported as unknown, with nothing run.
pub fn dispatch(key: &str) -> (r: Dispatch)
    ensures
        r@ == spec_dispatch(key@),
{
    match Command::parse(final_segment(key)) {
        Ok(Command::Reboot) => Dispatch::RunShell(String::from_str(REBOOT_SHELL)),
        Ok(Command::Shutdown) => Dispatch::RunShell(String::from_str(SHUTDOWN_SHELL)),
        Ok(Command::ResetGimbal) => Dispatch::Report(String::from_str(RESET_GIMBAL_REPORT)),
        Err(_) => {
            let mut text = String::from_str("Error: Unknown command '");
            text.append(key);
            text.append("'");
            Dispatch::Report(text)
        },
    }
}

/// Appending a segment free of `/` to a string that ends in `/` makes that
/// segment the final one.
proof fn lemma_segment_start_append(s: Seq<char>, t: Seq<char>)
    requires
        s.len() > 0,
        s.last() == '/',
        forall|i: int| 0 <= i < t.len() ==> t[i] != '/',
    ensures
        segment_start(s + t) == s.len(),
    decreases t.len(),
{
    if t.len() == 0 {
        assert(s + t =~= s);
    } else {
        assert((s + t).drop_last() =~= s + t.drop_last());
        lemma_segment_start_append(s, t.drop_last());
    }
}

/// No command token holds a `/`.
proof fn lemma_token_has_no_slash(c: Command)
    ensures
        forall|i: int| 0 <= i < c.token().len() ==> c.token()[i] != '/',
{
    reveal_strlit("reboot");
    reveal_strlit("shutdown");
    reveal_strlit("reset_gimbal");
}

/// A command sent with the key of command `c` on any orb is dispatched as
/// that command: reboot and shutdown run their shell actions, and the gimbal
/// reset runs nothing and reports success.
pub proof fn lemma_dispatch_command_key(c: Command, orb_id: Seq<char>)
    ensures
        last_segment(c.key(orb_id)) == c.token(),
        spec_dispatch(c.key(orb_id)) == match c {
            Command::Reboot => DispatchView::RunShell(REBOOT_SHELL@),
            Command::Shutdown => DispatchView::RunShell(SHUTDOWN_SHELL@),
            Command::ResetGimbal => DispatchView::Report(RESET_GIMBAL_REPORT@),
        },
        spec_dispatch(c.key(orb_id)) is Report <==> c == Command::ResetGimbal,
{
    reveal_strlit("/command/");
    reveal_strlit("reboot");
    reveal_strlit("shutdown");
    reveal_strlit("reset_gimbal");
    let s = "orb/"@ + orb_id + "/command/"@;
    assert(c.key(orb_id) =~= s + c.token());
    lemma_token_has_no_slash(c);
    lemma_segment_start_append(s, c.token());
    assert(last_segment(c.key(orb_id)) =~= c.token());
}

} // verus!
