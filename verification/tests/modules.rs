//! Module synthesis, the fixed file-name layout, and the core's
//! construction.
use enhanced_evoli_kern::kern::EnhancedEvoliKern;
use enhanced_evoli_kern::names::backup_file_name;
use enhanced_evoli_kern::names::cache_dir_name;
use enhanced_evoli_kern::names::cache_file_name;
use enhanced_evoli_kern::names::knowledge_dir_name;
use enhanced_evoli_kern::names::knowledge_file_name;
use enhanced_evoli_kern::names::module_file_name;
use enhanced_evoli_kern::names::staging_file_name;
use enhanced_evoli_kern::kern::EnvironmentSample;

fn chars(s: &str) -> Vec<char> {
    s.chars().collect()
}

fn text(v: &[char]) -> String {
    v.iter().collect()
}

#[test]
fn test_module_synthesis_is_idempotent() {
    let mut kern = EnhancedEvoliKern::new(chars("fn main() {}\n"));
    let first = kern.synthesize_module(0);
    assert!(first.is_some());
    assert_eq!(kern.module_genomes.len(), 1);
    assert_eq!(text(&kern.module_genomes[0].name), "evoli_module_data_processor");
    // Synthesis for the same derived name again is a no-op: exactly one
    // stored entry remains.
    let second = kern.synthesize_module(0);
    assert!(second.is_none());
    assert_eq!(kern.module_genomes.len(), 1);
}

#[test]
fn test_module_file_and_template() {
    let mut kern = EnhancedEvoliKern::new(chars("fn main() {}\n"));
    let file = kern.synthesize_module(0).expect("fresh module");
    assert_eq!(text(&file.name), "evoli_module_data_processor.rs");
    let expected = String::new()
        + "// Automatisch generiertes Modul: evoli_module_data_processor\n"
        + "pub struct data_processorModule {\n\tname: String,\n\tversion: f32,\n}\n\n"
        + "impl data_processorModule {\n" + "\tpub fn new() -> Self {\n"
        + "\t\tSelf {\n\t\t\tname: \"evoli_module_data_processor\".to_string(),\n\t\t\tversion: 0.1\n\t\t}\n\t}\n\n"
        + "\tpub fn process(&self, data: &str) -> String {\n"
        + "\t\tformat!(\"Processed by {}: {}\", self.name, data)\n\t}\n}\n";
    assert_eq!(text(&file.contents), expected);
    assert_eq!(kern.module_genomes[0].code, file.contents);
}

#[test]
fn test_module_map_stays_within_fixed_types() {
    let mut kern = EnhancedEvoliKern::new(chars("fn main() {}\n"));
    for _ in 0..200 {
        let _maybe = kern.try_create_new_module();
        assert!(kern.module_genomes.len() <= 4);
    }
    let allowed = [
        "evoli_module_data_processor",
        "evoli_module_network_interface",
        "evoli_module_learning_system",
        "evoli_module_code_analyzer",
    ];
    for module in &kern.module_genomes {
        assert!(allowed.contains(&text(&module.name).as_str()));
    }
}

#[test]
fn test_backup_file_names_by_generation() {
    assert_eq!(text(&backup_file_name(0)), "evoli_backup_gen_0.rs");
    assert_eq!(text(&backup_file_name(7)), "evoli_backup_gen_7.rs");
    assert_eq!(text(&backup_file_name(1234)), "evoli_backup_gen_1234.rs");
}

#[test]
fn test_fixed_layout_names() {
    assert_eq!(text(&knowledge_dir_name()), "evoli_knowledge");
    assert_eq!(text(&cache_dir_name()), "evoli_cache");
    assert_eq!(text(&staging_file_name()), "evoli_next_gen.rs");
    assert_eq!(text(&module_file_name(&chars("m"))), "m.rs");
}

#[test]
fn test_timestamped_names_have_fixed_frame() {
    let cache_name = text(&cache_file_name());
    assert!(cache_name.starts_with("evoli_cache_"));
    assert!(cache_name.ends_with(".html"));
    let knowledge_name = text(&knowledge_file_name());
    assert!(knowledge_name.starts_with("evoli_knowledge_"));
    assert!(knowledge_name.ends_with(".rs"));
}

#[test]
fn test_new_kern_initial_state() {
    let kern = EnhancedEvoliKern::new(chars("the genome"));
    assert_eq!(text(&kern.primary_genome), "the genome");
    assert_eq!(kern.generation, 0);
    assert_eq!(kern.fitness_score, 0);
    assert!(kern.module_genomes.is_empty());
    assert!(kern.evolution_backups.is_empty());
    assert!(kern.internet_enabled);
    assert_eq!(text(&kern.knowledge_dir), "evoli_knowledge");
    assert_eq!(text(&kern.internet_cache), "evoli_cache");
    let interlocks: Vec<String> = kern.safety_interlocks.iter().map(|v| text(v)).collect();
    assert_eq!(
        interlocks,
        vec![
            "no_system_harm".to_string(),
            "controlled_resource_usage".to_string(),
            "backup_before_mutation".to_string(),
            "validate_compilability".to_string(),
        ]
    );
}

#[test]
fn test_select_knowledge_file_bounds() {
    let kern = EnhancedEvoliKern::new(chars("x"));
    assert_eq!(kern.select_knowledge_file(0), None);
    for _ in 0..100 {
        if let Some(i) = kern.select_knowledge_file(5) {
            assert!(i < 5);
        }
    }
}

#[test]
fn test_choose_learning_url_is_fixed() {
    let kern = EnhancedEvoliKern::new(chars("x"));
    let allowed = [
        "https://doc.rust-lang.org/book/",
        "https://en.wikipedia.org/wiki/Genetic_algorithm",
        "https://en.wikipedia.org/wiki/Self-modifying_code",
    ];
    for _ in 0..30 {
        let url = text(&kern.choose_learning_url());
        assert!(allowed.contains(&url.as_str()));
    }
}

#[test]
fn test_analyze_environment_records_sample() {
    let mut kern = EnhancedEvoliKern::new(chars("x"));
    let knowledge = vec![enhanced_evoli_kern::storage::ManagedFile {
        path: chars("k"),
        size: 10,
        modified: 1,
    }];
    let cache = vec![enhanced_evoli_kern::storage::ManagedFile {
        path: chars("c"),
        size: 32,
        modified: 2,
    }];
    let sample = EnvironmentSample {
        memory_usage: 4096,
        cpu_sample: 77,
        uptime_seconds: 60,
        successful_compilations: 3,
        failed_compilations: 1,
        internet_requests: 2,
        knowledge_items: 5,
    };
    let metrics = kern.analyze_environment(sample, &knowledge, &cache);
    assert_eq!(kern.memory_usage, 4096);
    assert_eq!(kern.cpu_usage, 77);
    assert_eq!(kern.disk_usage, 42);
    assert_eq!(metrics.memory_usage, 4096);
    assert_eq!(metrics.cpu_usage, 77);
    assert_eq!(metrics.disk_usage, 42);
    assert_eq!(metrics.uptime_seconds, 60);
    assert_eq!(metrics.successful_compilations, 3);
    assert_eq!(metrics.failed_compilations, 1);
    assert_eq!(metrics.internet_requests, 2);
    assert_eq!(metrics.knowledge_items, 5);
}
