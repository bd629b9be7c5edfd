//! Error taxonomy. Agents pick the variant to adapt: retry, switch profile, or give up.
use crate::text::{decimal, push_decimal};
use vstd::prelude::*;

verus! {

#[derive(Debug, Clone, PartialEq, Eq)]
pub enum ToolError {
    PolicyDenied(String),
    PoolExhausted,
    Backend(String),
    Snapshot(String),
    Transport(String),
    GuestAgent(String),
    Timeout(u32),
    OomKilled,
    InvalidCapability,
    InvalidRequest(String),
}

/// A `ToolError` with its texts taken as character sequences.
pub enum ToolErrorView {
    PolicyDenied(Seq<char>),
    PoolExhausted,
    Backend(Seq<char>),
    Snapshot(Seq<char>),
    Transport(Seq<char>),
    GuestAgent(Seq<char>),
    Timeout(u32),
    OomKilled,
    InvalidCapability,
    InvalidRequest(Seq<char>),
}

impl View for ToolError {
    type V = ToolErrorView;

    open spec fn view(&self) -> ToolErrorView {
        match self {
            ToolError::PolicyDenied(m) => ToolErrorView::PolicyDenied(m@),
            ToolError::PoolExhausted => ToolErrorView::PoolExhausted,
            ToolError::Backend(m) => ToolErrorView::Backend(m@),
            ToolError::Snapshot(m) => ToolErrorView::Snapshot(m@),
            ToolError::Transport(m) => ToolErrorView::Transport(m@),
            ToolError::GuestAgent(m) => ToolErrorView::GuestAgent(m@),
            ToolError::Timeout(ms) => ToolErrorView::Timeout(*ms),
            ToolError::OomKilled => ToolErrorView::OomKilled,
            ToolError::InvalidCapability => ToolErrorView::InvalidCapability,
            ToolError::InvalidRequest(m) => ToolErrorView::InvalidRequest(m@),
        }
    }
}

/// The human-readable text of an error.
pub open spec fn error_text(e: ToolErrorView) -> Seq<char> {
    match e {
        ToolErrorView::PolicyDenied(m) => "policy denied: "@ + m,
        ToolErrorView::PoolExhausted => "vm pool exhausted"@,
        ToolErrorView::Backend(m) => "backend error: "@ + m,
        ToolErrorView::Snapshot(m) => "snapshot error: "@ + m,
        ToolErrorView::Transport(m) => "transport error: "@ + m,
        ToolErrorView::GuestAgent(m) => "guest agent error: "@ + m,
        ToolErrorView::Timeout(ms) => "command timeout after "@ + decimal(ms as nat) + " ms"@,
        ToolErrorView::OomKilled => "oom killed"@,
        ToolErrorView::InvalidCapability => "invalid capability token"@,
        ToolErrorView::InvalidRequest(m) => "invalid request: "@ + m,
    }
}

fn prefixed(prefix: &str, m: &String) -> (r: String)
    ensures
        r@ == prefix@ + m@,
{
    let mut s = String::from_str(prefix);
    s.append(m.as_str());
    s
}

impl ToolError {
    /// The error's text, as its `Display` shows it.
    pub fn message(&self) -> (r: String)
        ensures
            r@ == error_text(self@),
    {
        match self {
            ToolError::PolicyDenied(m) => prefixed("policy denied: ", m),
            ToolError::PoolExhausted => String::from_str("vm pool exhausted"),
            ToolError::Backend(m) => prefixed("backend error: ", m),
            ToolError::Snapshot(m) => prefixed("snapshot error: ", m),
            ToolError::Transport(m) => prefixed("transport error: ", m),
            ToolError::GuestAgent(m) => prefixed("guest agent error: ", m),
            ToolError::Timeout(ms) => {
                let mut s = String::from_str("command timeout after ");
                push_decimal(&mut s, *ms as u64);
                s.append(" ms");
                s
            },
            ToolError::OomKilled => String::from_str("oom killed"),
            ToolError::InvalidCapability => String::from_str("invalid capability token"),
            ToolError::InvalidRequest(m) => prefixed("invalid request: ", m),
        }
    }
}

} // verus!
