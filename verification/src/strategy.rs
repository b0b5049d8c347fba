//! The mutation and fitness capabilities: a trait each, the built-in
//! strategies, and the closed record type the registry stores them in.
//! Every strategy is a pure function of its input text, so its effect is
//! stated exactly.
use vstd::prelude::*;
use crate::text::copy_range;
use crate::text::str_to_chars;

verus! {

/// A named rewriting of the genome text. `mutate` is pure: its result
/// depends on the input text and the strategy value alone, as
/// `mutate_spec` states.
pub trait MutationStrategy: Sized {
    /// What the strategy does to a text.
    spec fn mutate_spec(&self, code: Seq<char>) -> Seq<char>;

    /// The strategy's display name.
    spec fn name_spec(&self) -> Seq<char>;

    fn mutate(&self, code: &Vec<char>) -> (r: Vec<char>)
        ensures
            r@ == self.mutate_spec(code@),
    ;

    fn name(&self) -> (r: Vec<char>)
        ensures
            r@ == self.name_spec(),
    ;
}

/// The ephemeral per-cycle measurement snapshot that fitness evaluators
/// read. The processor sample is a raw busy-loop count.
pub struct RuntimeMetrics {
    pub memory_usage: usize,
    pub cpu_usage: u64,
    pub disk_usage: u64,
    pub uptime_seconds: u64,
    pub successful_compilations: u64,
    pub failed_compilations: u64,
    pub internet_requests: u64,
    pub knowledge_items: u64,
}

/// A named scoring of a genome against the current metrics. A dormant
/// extension point: the cycle never invokes it, so nothing is promised of
/// its methods.
pub trait FitnessEvaluator: Sized {
    fn evaluate(&self, code: &Vec<char>, runtime_metrics: &RuntimeMetrics) -> u64;

    fn name(&self) -> Vec<char>;
}

/// The comment line the basic strategy inserts above a line of the text.
pub open spec fn basic_annotation() -> Seq<char> {
    "// Evolutionär optimiert\n"@
}

/// Inserts its comment line above the first line of the text; an empty
/// text stays empty, and every line of the input still occurs in the
/// result.
pub struct BasicMutationStrategy;

impl MutationStrategy for BasicMutationStrategy {
    open spec fn mutate_spec(&self, code: Seq<char>) -> Seq<char> {
        if code.len() == 0 {
            code
        } else {
            basic_annotation() + code
        }
    }

    open spec fn name_spec(&self) -> Seq<char> {
        "BasicMutation"@
    }

    fn mutate(&self, code: &Vec<char>) -> (r: Vec<char>) {
        if code.len() == 0 {
            let r: Vec<char> = Vec::new();
            assert(r@ =~= code@);
            return r;
        }
        let mut r = str_to_chars("// Evolutionär optimiert\n");
        let mut rest = copy_range(code, 0, code.len());
        r.append(&mut rest);
        assert(r@ =~= self.mutate_spec(code@));
        r
    }

    fn name(&self) -> (r: Vec<char>) {
        str_to_chars("BasicMutation")
    }
}

/// A placeholder for structural rewrites; leaves the text unchanged.
pub struct AdvancedMutationStrategy;

impl MutationStrategy for AdvancedMutationStrategy {
    open spec fn mutate_spec(&self, code: Seq<char>) -> Seq<char> {
        code
    }

    open spec fn name_spec(&self) -> Seq<char> {
        "AdvancedMutation"@
    }

    fn mutate(&self, code: &Vec<char>) -> (r: Vec<char>) {
        let r = copy_range(code, 0, code.len());
        assert(r@ =~= code@);
        r
    }

    fn name(&self) -> (r: Vec<char>) {
        str_to_chars("AdvancedMutation")
    }
}

/// A strategy the registry grows at run time. Its behaviour starts as the
/// identity; only its name is its own.
pub struct SelfDevelopedMutationStrategy {
    pub name: Vec<char>,
}

impl MutationStrategy for SelfDevelopedMutationStrategy {
    open spec fn mutate_spec(&self, code: Seq<char>) -> Seq<char> {
        code
    }

    open spec fn name_spec(&self) -> Seq<char> {
        self.name@
    }

    fn mutate(&self, code: &Vec<char>) -> (r: Vec<char>) {
        let r = copy_range(code, 0, code.len());
        assert(r@ =~= code@);
        r
    }

    fn name(&self) -> (r: Vec<char>) {
        copy_range(&self.name, 0, self.name.len())
    }
}

/// One registry entry: any of the strategy kinds, dispatched by match.
pub enum StrategyRecord {
    Basic(BasicMutationStrategy),
    Advanced(AdvancedMutationStrategy),
    SelfDeveloped(SelfDevelopedMutationStrategy),
}

impl MutationStrategy for StrategyRecord {
    open spec fn mutate_spec(&self, code: Seq<char>) -> Seq<char> {
        match self {
            StrategyRecord::Basic(s) => s.mutate_spec(code),
            StrategyRecord::Advanced(s) => s.mutate_spec(code),
            StrategyRecord::SelfDeveloped(s) => s.mutate_spec(code),
        }
    }

    open spec fn name_spec(&self) -> Seq<char> {
        match self {
            StrategyRecord::Basic(s) => s.name_spec(),
            StrategyRecord::Advanced(s) => s.name_spec(),
            StrategyRecord::SelfDeveloped(s) => s.name_spec(),
        }
    }

    fn mutate(&self, code: &Vec<char>) -> (r: Vec<char>) {
        match self {
            StrategyRecord::Basic(s) => s.mutate(code),
            StrategyRecord::Advanced(s) => s.mutate(code),
            StrategyRecord::SelfDeveloped(s) => s.mutate(code),
        }
    }

    fn name(&self) -> (r: Vec<char>) {
        match self {
            StrategyRecord::Basic(s) => s.name(),
            StrategyRecord::Advanced(s) => s.name(),
            StrategyRecord::SelfDeveloped(s) => s.name(),
        }
    }
}

} // verus!
