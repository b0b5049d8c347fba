//! The evolution cycle: generation accounting, the backup history, the
//! compile outcome, and knowledge extraction and splicing.
use enhanced_evoli_kern::kern::EnhancedEvoliKern;
use enhanced_evoli_kern::knowledge::render_knowledge_file;

fn chars(s: &str) -> Vec<char> {
    s.chars().collect()
}

fn text(v: &[char]) -> String {
    v.iter().collect()
}

#[test]
fn test_generation_increments_once_per_cycle() {
    let mut kern = EnhancedEvoliKern::new(chars("fn main() {}\n"));
    for expected in 0..15u64 {
        assert_eq!(kern.generation, expected);
        let _backup = kern.create_backup();
        let idx = kern.choose_mutation();
        let candidate = kern.apply_mutation(idx);
        // Whatever the mutation and compile outcome, the cycle completes.
        let compile_ok = expected % 2 == 0;
        kern.apply_evolution_outcome(&candidate.clone(), compile_ok, None);
        kern.develop_new_strategies();
        kern.complete_cycle();
    }
    assert_eq!(kern.generation, 15);
}

#[test]
fn test_backup_list_holds_ten_most_recent() {
    let mut kern = EnhancedEvoliKern::new(chars("fn main() {}\n"));
    for _ in 0..15 {
        let _backup = kern.create_backup();
        assert!(kern.evolution_backups.len() <= 10);
        kern.complete_cycle();
    }
    assert_eq!(kern.evolution_backups.len(), 10);
    let generations: Vec<u64> = kern.evolution_backups.iter().map(|b| b.generation).collect();
    assert_eq!(generations, vec![5, 6, 7, 8, 9, 10, 11, 12, 13, 14]);
}

#[test]
fn test_backup_file_carries_the_genome() {
    let mut kern = EnhancedEvoliKern::new(chars("fn main() {}\n"));
    let backup = kern.create_backup();
    assert_eq!(text(&backup.name), "evoli_backup_gen_0.rs");
    assert_eq!(backup.contents, kern.primary_genome);
    assert_eq!(kern.evolution_backups.len(), 1);
    assert_eq!(kern.evolution_backups[0].generation, 0);
}

#[test]
fn test_unchanged_candidate_needs_no_build_and_keeps_primary() {
    let mut kern = EnhancedEvoliKern::new(chars("fn main() {}\n"));
    let candidate = kern.primary_genome.clone();
    assert!(!kern.candidate_requires_build(&candidate));
    let before = kern.primary_genome.clone();
    kern.apply_evolution_outcome(&candidate, true, None);
    assert_eq!(kern.primary_genome, before);
    kern.apply_evolution_outcome(&candidate, false, None);
    assert_eq!(kern.primary_genome, before);
}

#[test]
fn test_failed_compile_keeps_primary_bit_identical() {
    let mut kern = EnhancedEvoliKern::new(chars("fn main() {}\n"));
    let candidate = chars("fn main() { broken\n");
    assert!(kern.candidate_requires_build(&candidate));
    let before = kern.primary_genome.clone();
    kern.apply_evolution_outcome(&candidate, false, Some(&chars("fn x() {\n}\n")));
    assert_eq!(kern.primary_genome, before);
}

#[test]
fn test_successful_compile_adopts_candidate() {
    let mut kern = EnhancedEvoliKern::new(chars("fn main() {}\n"));
    let candidate = chars("fn main() { println!(\"hi\"); }\n");
    kern.apply_evolution_outcome(&candidate, true, None);
    assert_eq!(kern.primary_genome, candidate);
}

#[test]
fn test_successful_compile_splices_knowledge() {
    let mut kern = EnhancedEvoliKern::new(chars("fn main() {}\n"));
    let candidate = chars("struct A;\nfn main() {\n}\n");
    let knowledge = chars("junk fn helper() {\n    let x = 1;\n}\nmore");
    kern.apply_evolution_outcome(&candidate, true, Some(&knowledge));
    let expected = String::new() + "struct A;\nfn main() {\n"
        + "\n// Von Internet gelernt\n" + "fn helper() {\n    let x = 1;\n}\n" + "\n" + "}\n";
    assert_eq!(text(&kern.primary_genome), expected);
}

#[test]
fn test_integrate_without_knowledge_keeps_code() {
    let kern = EnhancedEvoliKern::new(chars("fn main() {}\n"));
    let code = chars("fn a() {}\n");
    assert_eq!(kern.integrate_knowledge_into_code(&code, None), code);
}

#[test]
fn test_integrate_without_function_keeps_code() {
    let kern = EnhancedEvoliKern::new(chars("fn main() {}\n"));
    let code = chars("fn a() {}\n");
    let knowledge = chars("nothing liftable here");
    assert_eq!(kern.integrate_knowledge_into_code(&code, Some(&knowledge)), code);
}

#[test]
fn test_extract_blocks_from_fenced_content() {
    let kern = EnhancedEvoliKern::new(chars("fn main() {}\n"));
    let content = chars("intro ```rust\nfn a() {}\n``` middle ```rust\n\n``` tail");
    let blocks = kern.extract_knowledge_from_content(&content);
    assert_eq!(blocks.len(), 1);
    assert_eq!(text(&blocks[0]), "fn a() {}");
}

#[test]
fn test_extract_nothing_without_fence() {
    let kern = EnhancedEvoliKern::new(chars("fn main() {}\n"));
    let blocks = kern.extract_knowledge_from_content(&chars("no code fences at all"));
    assert!(blocks.is_empty());
}

#[test]
fn test_extract_scans_text_before_first_fence() {
    // The text before the first opening fence is a segment as well; a bare
    // closing fence in it yields only an empty, dropped block.
    let kern = EnhancedEvoliKern::new(chars("fn main() {}\n"));
    let content = chars("``` odd ```rust\ncode\n```");
    let blocks = kern.extract_knowledge_from_content(&content);
    assert_eq!(blocks.len(), 1);
    assert_eq!(text(&blocks[0]), "code");
}

#[test]
fn test_extract_trims_unicode_whitespace() {
    // Blocks are trimmed as the standard trim would: non-breaking spaces
    // and other Unicode whitespace fall away too.
    let kern = EnhancedEvoliKern::new(chars("fn main() {}\n"));
    let content = chars("```rust\n\u{a0}\u{2003}fn a() {}\u{a0}\n```");
    let blocks = kern.extract_knowledge_from_content(&content);
    assert_eq!(blocks.len(), 1);
    assert_eq!(text(&blocks[0]), "fn a() {}");
}

#[test]
fn test_render_knowledge_file_numbers_blocks() {
    let blocks = vec![chars("a"), chars("b")];
    let rendered = render_knowledge_file(&blocks);
    assert_eq!(
        text(&rendered),
        "// Extrahiertes Code-Beispiel 1\na\n\n// Extrahiertes Code-Beispiel 2\nb\n\n"
    );
}

#[test]
fn test_replace_primary_overwrites() {
    let mut kern = EnhancedEvoliKern::new(chars("old"));
    kern.replace_primary(chars("new"));
    assert_eq!(text(&kern.primary_genome), "new");
}
