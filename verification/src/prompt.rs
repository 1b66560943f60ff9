//! Prompts that extensions contribute to an agent.
use vstd::prelude::*;

verus! {

/// When a prompt takes effect: always, or when the user invokes it as a command.
#[derive(Clone, Copy, Debug, PartialEq, Eq, Structural)]
pub enum Activation {
    Always,
    ByCommand,
}

/// A prompt with its name.
#[derive(Debug, PartialEq, Eq)]
pub struct PromptSpec {
    pub id: String,
    pub text: String,
    pub activation: Activation,
}

pub struct PromptView {
    pub id: Seq<char>,
    pub text: Seq<char>,
    pub activation: Activation,
}

impl View for PromptSpec {
    type V = PromptView;

    open spec fn view(&self) -> PromptView {
        PromptView { id: self.id@, text: self.text@, activation: self.activation }
    }
}

pub open spec fn prompt_views(s: Seq<PromptSpec>) -> Seq<PromptView> {
    Seq::new(s.len(), |i: int| s[i]@)
}

} // verus!
