//! What a tool call is answered.

use vstd::prelude::*;

use crate::text;

verus! {

/// The answer to a tool call.
#[derive(Debug)]
pub struct ToolResult {
    /// Whether the call did what was asked.
    pub success: bool,
    /// What the call produced.
    pub output: String,
    /// Why the call failed.
    pub error: Option<String>,
}

/// An answer as texts.
#[verifier::ext_equal]
pub struct Reply {
    pub success: bool,
    pub output: Seq<char>,
    pub error: Option<Seq<char>>,
}

impl View for ToolResult {
    type V = Reply;

    open spec fn view(&self) -> Reply {
        Reply { success: self.success, output: self.output@, error: text::optional(self.error) }
    }
}

/// The answer that refuses a call for a reason.
pub open spec fn refused(reason: Seq<char>) -> Reply {
    Reply { success: false, output: seq![], error: Some(reason) }
}

/// The answer of a call that produced something.
pub open spec fn produced(output: Seq<char>) -> Reply {
    Reply { success: true, output, error: None }
}

/// A step that either goes on or ends with an answer.
pub enum Step<T> {
    /// Go on with this.
    Go(T),
    /// The call is answered.
    Answer(ToolResult),
}

impl ToolResult {
    /// The answer that refuses a call for a reason.
    pub fn refusal(reason: String) -> (r: Self)
        ensures
            r@ == refused(reason@),
    {
        let r = ToolResult { success: false, output: String::new(), error: Some(reason) };
        assert(r@.output =~= seq![]);
        r
    }

    /// The answer of a call that produced something.
    pub fn product(output: String) -> (r: Self)
        ensures
            r@ == produced(output@),
    {
        ToolResult { success: true, output, error: None }
    }
}

} // verus!
