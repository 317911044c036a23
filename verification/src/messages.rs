//! Messages between the terminal interface and the agent.

use vstd::prelude::*;

verus! {

/// A request from the interface to the agent.
#[derive(Debug, Clone)]
pub enum Command {
    SendMessage(String),
    Cancel,
    Shutdown,
    SaveSession,
    NewSession,
    LoadSession(String),
    ListSessions,
    SetSessionName(String),
    SetReasoningLevel(String),
    ShowMenu,
    CompactContext,
    ViewContextStats,
}

/// A `Command` with its text as a character sequence.
pub enum CommandView {
    SendMessage(Seq<char>),
    Cancel,
    Shutdown,
    SaveSession,
    NewSession,
    LoadSession(Seq<char>),
    ListSessions,
    SetSessionName(Seq<char>),
    SetReasoningLevel(Seq<char>),
    ShowMenu,
    CompactContext,
    ViewContextStats,
}

impl View for Command {
    type V = CommandView;

    open spec fn view(&self) -> CommandView {
        match self {
            Command::SendMessage(s) => CommandView::SendMessage(s@),
            Command::Cancel => CommandView::Cancel,
            Command::Shutdown => CommandView::Shutdown,
            Command::SaveSession => CommandView::SaveSession,
            Command::NewSession => CommandView::NewSession,
            Command::LoadSession(s) => CommandView::LoadSession(s@),
            Command::ListSessions => CommandView::ListSessions,
            Command::SetSessionName(s) => CommandView::SetSessionName(s@),
            Command::SetReasoningLevel(s) => CommandView::SetReasoningLevel(s@),
            Command::ShowMenu => CommandView::ShowMenu,
            Command::CompactContext => CommandView::CompactContext,
            Command::ViewContextStats => CommandView::ViewContextStats,
        }
    }
}

/// The user's answer to a proposed edit.
#[derive(Debug, Clone, Copy, PartialEq, Eq, Structural)]
pub enum ApprovalResponse {
    Approve,
    Reject,
}

/// The user's answer to a permission prompt; `YesAndDontAsk` carries the
/// pattern to remember.
#[derive(Debug)]
pub enum PermissionResponse {
    Yes,
    YesAndDontAsk(String),
    No,
}

} // verus!
