//! Request options that select how a backend reasons.

use vstd::prelude::*;

verus! {

/// Configuration for model thinking. Each variant carries what its backend
/// needs; backends apply defaults for the variants they do not use.
#[derive(Debug, Clone, PartialEq, Eq)]
pub enum Thinking {
    /// A token budget for thinking.
    BudgetTokens(usize),
    /// A named effort level such as "low", "medium" or "high".
    Effort(String),
    /// Thinking on, with no further configuration.
    Enabled,
}

impl Thinking {
    pub fn budget_tokens(budget: usize) -> (r: Thinking)
        ensures
            r == Thinking::BudgetTokens(budget),
    {
        Thinking::BudgetTokens(budget)
    }

    pub fn effort(effort: &str) -> (r: Thinking)
        ensures
            r matches Thinking::Effort(e) && e@ == effort@,
    {
        Thinking::Effort(effort.to_string())
    }

    pub fn enabled() -> (r: Thinking)
        ensures
            r == Thinking::Enabled,
    {
        Thinking::Enabled
    }
}

} // verus!
