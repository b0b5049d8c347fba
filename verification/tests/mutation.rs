//! The mutation strategies and the registry's growth.
use enhanced_evoli_kern::kern::EnhancedEvoliKern;
use enhanced_evoli_kern::strategy::AdvancedMutationStrategy;
use enhanced_evoli_kern::strategy::BasicMutationStrategy;
use enhanced_evoli_kern::strategy::MutationStrategy;
use enhanced_evoli_kern::strategy::SelfDevelopedMutationStrategy;

fn chars(s: &str) -> Vec<char> {
    s.chars().collect()
}

fn text(v: &[char]) -> String {
    v.iter().collect()
}

#[test]
fn test_basic_mutation() {
    let strategy = BasicMutationStrategy;
    let mutated = strategy.mutate(&chars("fn main() {}\n"));
    assert_eq!(text(&mutated), "// Evolution\u{e4}r optimiert\nfn main() {}\n");
    assert_eq!(text(&strategy.name()), "BasicMutation");
    // Every line of the input still occurs, and an empty text stays empty.
    assert!(text(&mutated).contains("fn main() {}"));
    assert!(strategy.mutate(&Vec::new()).is_empty());
}

#[test]
fn test_advanced_mutation_is_identity() {
    let strategy = AdvancedMutationStrategy;
    let input = chars("fn main() { let a = 1; }\n");
    assert_eq!(strategy.mutate(&input), input);
    assert_eq!(text(&strategy.name()), "AdvancedMutation");
}

#[test]
fn test_self_developed_mutation_is_identity() {
    let strategy = SelfDevelopedMutationStrategy { name: chars("EvolvdStrategy_3") };
    let input = chars("anything at all");
    assert_eq!(strategy.mutate(&input), input);
    assert_eq!(text(&strategy.name()), "EvolvdStrategy_3");
}

#[test]
fn test_registry_starts_with_two_strategies() {
    let kern = EnhancedEvoliKern::new(chars("fn main() {}\n"));
    assert_eq!(kern.mutation_strategies.len(), 2);
}

#[test]
fn test_registry_never_exceeds_ten() {
    // Two hundred simulated cycles of strategy development, each with its
    // 5% chance of appending: the registry must stay within its bound.
    let mut kern = EnhancedEvoliKern::new(chars("fn main() {}\n"));
    for _ in 0..200 {
        kern.develop_new_strategies();
        assert!(kern.mutation_strategies.len() <= 10);
        kern.complete_cycle();
    }
    assert!(kern.mutation_strategies.len() >= 2);
}

#[test]
fn test_choose_mutation_yields_valid_index() {
    let kern = EnhancedEvoliKern::new(chars("fn main() {}\n"));
    for _ in 0..50 {
        let idx = kern.choose_mutation();
        assert!(idx < kern.mutation_strategies.len());
    }
}

#[test]
fn test_apply_mutation_matches_strategy() {
    let kern = EnhancedEvoliKern::new(chars("fn main() {}\n"));
    // Index 0 is the basic strategy: its comment goes above the first line.
    let candidate = kern.apply_mutation(0);
    assert_eq!(text(&candidate), "// Evolution\u{e4}r optimiert\nfn main() {}\n");
    // Index 1 is the advanced placeholder: the identity.
    let unchanged = kern.apply_mutation(1);
    assert_eq!(unchanged, kern.primary_genome);
}
