//! The storage governor: usage measurement and oldest-first eviction.
use enhanced_evoli_kern::kern::EnhancedEvoliKern;
use enhanced_evoli_kern::storage::ManagedFile;

fn chars(s: &str) -> Vec<char> {
    s.chars().collect()
}

fn text(v: &[char]) -> String {
    v.iter().collect()
}

fn file(name: &str, size: u64, modified: u64) -> ManagedFile {
    ManagedFile { path: chars(name), size, modified }
}

#[test]
fn test_disk_usage_sums_both_directories() {
    let kern = EnhancedEvoliKern::new(chars("x"));
    let knowledge = vec![file("k1", 5, 1), file("k2", 7, 2)];
    let cache = vec![file("c1", 11, 3)];
    assert_eq!(kern.calculate_disk_usage(&knowledge, &cache), 23);
    assert_eq!(kern.calculate_disk_usage(&Vec::new(), &Vec::new()), 0);
}

#[test]
fn test_governance_scenario_reaches_target() {
    // Capacity chosen so the high-water mark is 30 MB and the low-water
    // target 18.75 MB; the knowledge store holds 10 MB / 20 MB / 5 MB with
    // usage 35 MB. Files leave oldest first until usage is at the target.
    let kern = EnhancedEvoliKern::new(chars("x"));
    let knowledge = vec![
        file("old.rs", 10_000_000, 100),
        file("middle.rs", 20_000_000, 200),
        file("new.rs", 5_000_000, 300),
    ];
    let cache: Vec<ManagedFile> = Vec::new();
    let capacity: u64 = 37_500_000;
    let plan = kern.manage_storage(knowledge.clone(), cache, capacity);
    assert!(plan.cache_victims.is_empty());
    let deleted: Vec<String> = plan.knowledge_victims.iter().map(|f| text(&f.path)).collect();
    assert_eq!(deleted, vec!["old.rs".to_string(), "middle.rs".to_string()]);
    let deleted_bytes: u64 = plan.knowledge_victims.iter().map(|f| f.size).sum();
    let remaining: u64 = 35_000_000 - deleted_bytes;
    assert_eq!(remaining, 5_000_000);
    assert!(remaining <= capacity / 2);
}

#[test]
fn test_eviction_removes_strictly_oldest_first() {
    // Three files with distinct ages and a target forcing exactly one
    // removal: the oldest-modified file is the one that leaves.
    let kern = EnhancedEvoliKern::new(chars("x"));
    let files = vec![file("b", 10, 20), file("a", 10, 10), file("c", 10, 30)];
    let victims = kern.clean_directory(files, 30, 25);
    assert_eq!(victims.len(), 1);
    assert_eq!(text(&victims[0].path), "a");
}

#[test]
fn test_eviction_noop_at_or_below_target() {
    let kern = EnhancedEvoliKern::new(chars("x"));
    let files = vec![file("a", 10, 10), file("b", 10, 20)];
    let victims = kern.clean_directory(files, 20, 20);
    assert!(victims.is_empty());
}

#[test]
fn test_eviction_exhausts_directory_in_age_order() {
    let kern = EnhancedEvoliKern::new(chars("x"));
    let files = vec![file("newest", 1, 30), file("oldest", 1, 10), file("middle", 1, 20)];
    // The directory cannot reach the target: every file leaves, oldest
    // first.
    let victims = kern.clean_directory(files, 1_000, 0);
    let order: Vec<String> = victims.iter().map(|f| text(&f.path)).collect();
    assert_eq!(
        order,
        vec!["oldest".to_string(), "middle".to_string(), "newest".to_string()]
    );
}

#[test]
fn test_eviction_keeps_scan_order_on_equal_ages() {
    let kern = EnhancedEvoliKern::new(chars("x"));
    let files = vec![file("first", 1, 5), file("second", 1, 5)];
    let victims = kern.clean_directory(files, 100, 0);
    let order: Vec<String> = victims.iter().map(|f| text(&f.path)).collect();
    assert_eq!(order, vec!["first".to_string(), "second".to_string()]);
}

#[test]
fn test_governance_noop_below_high_water_mark() {
    let kern = EnhancedEvoliKern::new(chars("x"));
    let knowledge = vec![file("k", 10, 1)];
    let cache = vec![file("c", 10, 2)];
    let plan = kern.manage_storage(knowledge, cache, 1_000);
    assert!(plan.cache_victims.is_empty());
    assert!(plan.knowledge_victims.is_empty());
}

#[test]
fn test_governance_cleans_cache_before_knowledge() {
    // Usage 100 of capacity 100: both marks exceeded. The cache alone can
    // bring usage to the target, so the knowledge store is untouched.
    let kern = EnhancedEvoliKern::new(chars("x"));
    let knowledge = vec![file("k", 40, 50)];
    let cache = vec![file("c1", 30, 10), file("c2", 30, 20)];
    let plan = kern.manage_storage(knowledge, cache, 100);
    let cache_deleted: Vec<String> = plan.cache_victims.iter().map(|f| text(&f.path)).collect();
    assert_eq!(cache_deleted, vec!["c1".to_string(), "c2".to_string()]);
    assert!(plan.knowledge_victims.is_empty());
}
