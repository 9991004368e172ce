//! Names for models, the roles they play and how hard they reason.

use vstd::prelude::*;

verus! {

/// The job that a model does.
#[derive(Clone, Copy, PartialEq, Eq, Debug, Structural)]
pub enum ModelTier {
    Strong,
    Medium,
    Weak,
    Compaction,
    Suggest,
}

/// How hard a model reasons.
#[derive(Clone, Copy, PartialEq, Eq, Debug, Structural)]
pub enum Effort {
    Minimal,
    Low,
    Medium,
    High,
    XHigh,
    Max,
}

/// Whether and how a session asks for reasoning.
#[derive(Clone, Copy, PartialEq, Eq, Debug, Structural)]
pub enum ThinkingConfig {
    Off,
    Adaptive,
    Effort(Effort),
    /// Tokens to spend on it.
    Budget(u32),
}

/// The levels that a model accepts, and the one it takes when none is named.
#[derive(Debug)]
pub struct EffortOptions {
    pub supported: Vec<Effort>,
    pub default: Option<Effort>,
}

impl ModelTier {
    pub open spec fn name(self) -> Seq<char> {
        match self {
            ModelTier::Strong => "strong"@,
            ModelTier::Medium => "medium"@,
            ModelTier::Weak => "weak"@,
            ModelTier::Compaction => "compaction"@,
            ModelTier::Suggest => "suggest"@,
        }
    }

    pub fn as_str(self) -> (r: &'static str)
        ensures
            r@ == self.name(),
    {
        match self {
            ModelTier::Strong => "strong",
            ModelTier::Medium => "medium",
            ModelTier::Weak => "weak",
            ModelTier::Compaction => "compaction",
            ModelTier::Suggest => "suggest",
        }
    }
}

impl Effort {
    pub open spec fn name(self) -> Seq<char> {
        match self {
            Effort::Minimal => "minimal"@,
            Effort::Low => "low"@,
            Effort::Medium => "medium"@,
            Effort::High => "high"@,
            Effort::XHigh => "xhigh"@,
            Effort::Max => "max"@,
        }
    }

    pub fn as_str(self) -> (r: &'static str)
        ensures
            r@ == self.name(),
    {
        match self {
            Effort::Minimal => "minimal",
            Effort::Low => "low",
            Effort::Medium => "medium",
            Effort::High => "high",
            Effort::XHigh => "xhigh",
            Effort::Max => "max",
        }
    }
}

}
