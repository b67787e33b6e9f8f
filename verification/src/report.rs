//! The verification level reached by each contract clause, reported next to
//! the diagnostics. Levels: `static` (decided at compile time), `generative`
//! (no counterexample over all generated inputs), `bounded` (no counterexample
//! over a partial sample), `runtime` (checked by a runtime assertion),
//! `trusted` and `unchecked`.
use vstd::prelude::*;
use crate::diagnostic::{Diagnostic, Span};

verus! {

/// The structured output of a check: diagnostics plus contract levels.
#[derive(Debug, Clone, PartialEq, Eq)]
pub struct CheckReport {
    pub diagnostics: Vec<Diagnostic>,
    pub contracts: Vec<ContractInfo>,
}

/// The verification level of one `requires` / `ensures` clause.
#[derive(Debug, Clone, PartialEq, Eq)]
pub struct ContractInfo {
    /// The function declaring the contract.
    pub func: String,
    pub kind: ContractKind,
    /// The clause in Kei source notation.
    pub expr: String,
    /// The level the toolchain reached (not the author's choice).
    pub verification: Verification,
    pub span: Span,
}

#[derive(Debug, Clone, Copy, PartialEq, Eq, Structural)]
pub enum ContractKind {
    Requires,
    Ensures,
}

pub open spec fn contract_kind_text(k: ContractKind) -> Seq<char> {
    match k {
        ContractKind::Requires => "requires"@,
        ContractKind::Ensures => "ensures"@,
    }
}

impl ContractKind {
    pub fn as_str(self) -> (r: &'static str)
        ensures
            r@ == contract_kind_text(self),
    {
        match self {
            ContractKind::Requires => "requires",
            ContractKind::Ensures => "ensures",
        }
    }
}

#[derive(Debug, Clone, Copy, PartialEq, Eq, Structural)]
pub enum Verification {
    Static,
    /// No counterexample over all generated inputs.
    Generative,
    /// No counterexample over a partial sample (not exhaustive).
    Bounded,
    Runtime,
    Trusted,
    Unchecked,
}

pub open spec fn verification_text(v: Verification) -> Seq<char> {
    match v {
        Verification::Static => "static"@,
        Verification::Generative => "generative"@,
        Verification::Bounded => "bounded"@,
        Verification::Runtime => "runtime"@,
        Verification::Trusted => "trusted"@,
        Verification::Unchecked => "unchecked"@,
    }
}

impl Verification {
    pub fn as_str(self) -> (r: &'static str)
        ensures
            r@ == verification_text(self),
    {
        match self {
            Verification::Static => "static",
            Verification::Generative => "generative",
            Verification::Bounded => "bounded",
            Verification::Runtime => "runtime",
            Verification::Trusted => "trusted",
            Verification::Unchecked => "unchecked",
        }
    }
}

} // verus!
