//! The fixed on-disk layout: directory names, the staging file, and the
//! deterministic file names for backups, modules, cached pages and
//! knowledge items. Timestamped names pin everything but the stamp.
use vstd::prelude::*;
use crate::text::dec_digits;
use crate::text::str_to_chars;
use crate::text::u64_to_chars;

verus! {

/// Relies on chrono::Local::now and chrono's formatter for the compact
/// local timestamp used in generated file names. Nothing is assumed of its
/// value.
#[verifier::external_body]
pub(crate) fn local_timestamp_chars() -> (r: Vec<char>) {
    chrono::Local::now().format("%Y%m%d%H%M%S").to_string().chars().collect()
}

/// The knowledge-store directory.
pub fn knowledge_dir_name() -> (r: Vec<char>)
    ensures
        r@ == "evoli_knowledge"@,
{
    str_to_chars("evoli_knowledge")
}

/// The retrieval-cache directory.
pub fn cache_dir_name() -> (r: Vec<char>)
    ensures
        r@ == "evoli_cache"@,
{
    str_to_chars("evoli_cache")
}

/// The staging file a mutation candidate is persisted to for compilation.
pub fn staging_file_name() -> (r: Vec<char>)
    ensures
        r@ == "evoli_next_gen.rs"@,
{
    str_to_chars("evoli_next_gen.rs")
}

/// The name of the backup file for one generation.
pub open spec fn backup_file_name_spec(generation: int) -> Seq<char> {
    "evoli_backup_gen_"@ + dec_digits(generation) + ".rs"@
}

/// Builds the backup file name for a generation.
pub fn backup_file_name(generation: u64) -> (r: Vec<char>)
    ensures
        r@ == backup_file_name_spec(generation as int),
{
    let mut r = str_to_chars("evoli_backup_gen_");
    let mut digits = u64_to_chars(generation);
    r.append(&mut digits);
    let mut ext = str_to_chars(".rs");
    r.append(&mut ext);
    assert(r@ =~= backup_file_name_spec(generation as int));
    r
}

/// The file name a module of the given name is stored under.
pub open spec fn module_file_name_spec(module_name: Seq<char>) -> Seq<char> {
    module_name + ".rs"@
}

/// Builds the file name for a module.
pub fn module_file_name(module_name: &Vec<char>) -> (r: Vec<char>)
    ensures
        r@ == module_file_name_spec(module_name@),
{
    let mut r = crate::text::copy_range(module_name, 0, module_name.len());
    let mut ext = str_to_chars(".rs");
    r.append(&mut ext);
    assert(r@ =~= module_file_name_spec(module_name@));
    r
}

/// A timestamped name for one cached retrieval.
pub fn cache_file_name() -> (r: Vec<char>)
    ensures
        exists|ts: Seq<char>| r@ == "evoli_cache_"@ + ts + ".html"@,
{
    let mut r = str_to_chars("evoli_cache_");
    let mut stamp = local_timestamp_chars();
    let ghost ts = stamp@;
    r.append(&mut stamp);
    let mut ext = str_to_chars(".html");
    r.append(&mut ext);
    assert(r@ =~= "evoli_cache_"@ + ts + ".html"@);
    r
}

/// A timestamped name for one stored knowledge item.
pub fn knowledge_file_name() -> (r: Vec<char>)
    ensures
        exists|ts: Seq<char>| r@ == "evoli_knowledge_"@ + ts + ".rs"@,
{
    let mut r = str_to_chars("evoli_knowledge_");
    let mut stamp = local_timestamp_chars();
    let ghost ts = stamp@;
    r.append(&mut stamp);
    let mut ext = str_to_chars(".rs");
    r.append(&mut ext);
    assert(r@ =~= "evoli_knowledge_"@ + ts + ".rs"@);
    r
}

} // verus!
