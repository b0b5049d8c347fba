//! The evolutionary core: the genome with its bounded backup history, the
//! strategy registry, and the decisions of one evolution cycle. The core
//! never touches a file, a process or the network itself; callers perform
//! those effects and hand the outcomes back as plain values.
use vstd::prelude::*;
use crate::knowledge::integrate_spec;
use crate::knowledge::knowledge_view;
use crate::names::backup_file_name;
use crate::names::backup_file_name_spec;
use crate::names::cache_dir_name;
use crate::names::knowledge_dir_name;
use crate::rng::draw_below;
use crate::rng::draw_index;
use crate::storage::combined_usage;
use crate::storage::evict_plan;
use crate::storage::governance_spec;
use crate::storage::plan_eviction;
use crate::storage::plan_governance;
use crate::storage::sat_cap;
use crate::storage::total_size;
use crate::storage::usage_after;
use crate::storage::ManagedFile;
use crate::storage::StoragePlan;
use crate::strategy::AdvancedMutationStrategy;
use crate::strategy::BasicMutationStrategy;
use crate::strategy::MutationStrategy;
use crate::strategy::RuntimeMetrics;
use crate::strategy::SelfDevelopedMutationStrategy;
use crate::strategy::StrategyRecord;
use crate::text::chars_equal;
use crate::text::copy_range;
use crate::text::dec_digits;
use crate::text::str_to_chars;
use crate::text::u64_to_chars;

verus! {

/// The storage budget in bytes: one tebibyte.
pub const MAX_STORAGE_BYTES: u64 = 1_099_511_627_776;

/// The most backup entries kept in memory.
pub const MAX_BACKUPS: usize = 10;

/// The most strategies the registry may hold.
pub const MAX_STRATEGIES: usize = 10;

/// One generation-tagged snapshot of the primary genome.
pub struct BackupEntry {
    pub generation: u64,
    pub source_snapshot: Vec<char>,
}

/// One named auxiliary module of the genome.
pub struct ModuleEntry {
    pub name: Vec<char>,
    pub code: Vec<char>,
}

/// A file the caller is asked to persist: its name and its text.
pub struct NamedFile {
    pub name: Vec<char>,
    pub contents: Vec<char>,
}

/// A backup entry reduced to its mathematical content.
pub open spec fn backup_view(b: BackupEntry) -> (int, Seq<char>) {
    (b.generation as int, b.source_snapshot@)
}

/// The backup list reduced to its mathematical content.
pub open spec fn backup_views(s: Seq<BackupEntry>) -> Seq<(int, Seq<char>)> {
    s.map_values(|b: BackupEntry| backup_view(b))
}

/// One snapshot appended to the backup list, the oldest entry leaving when
/// the list would exceed its bound.
pub open spec fn push_backup(views: Seq<(int, Seq<char>)>, e: (int, Seq<char>)) -> Seq<
    (int, Seq<char>),
> {
    let t = views.push(e);
    if t.len() > MAX_BACKUPS {
        t.drop_first()
    } else {
        t
    }
}

/// A module entry reduced to its mathematical content.
pub open spec fn module_view(m: ModuleEntry) -> (Seq<char>, Seq<char>) {
    (m.name@, m.code@)
}

/// The module map reduced to its mathematical content.
pub open spec fn module_views(s: Seq<ModuleEntry>) -> Seq<(Seq<char>, Seq<char>)> {
    s.map_values(|m: ModuleEntry| module_view(m))
}

/// Whether the module map holds an entry of this name.
pub open spec fn has_module(views: Seq<(Seq<char>, Seq<char>)>, name: Seq<char>) -> bool {
    exists|i: int| 0 <= i < views.len() && views[i].0 == name
}

/// The evolutionary core. Its structural invariant `wf` is established by
/// `new` and preserved by every operation.
pub struct EnhancedEvoliKern {
    pub primary_genome: Vec<char>,
    pub module_genomes: Vec<ModuleEntry>,
    pub generation: u64,
    pub fitness_score: u64,
    pub memory_usage: usize,
    pub cpu_usage: u64,
    pub disk_usage: u64,
    pub knowledge_dir: Vec<char>,
    pub internet_cache: Vec<char>,
    pub mutation_strategies: Vec<StrategyRecord>,
    pub modification_rules: Vec<Vec<char>>,
    pub internet_enabled: bool,
    pub safety_interlocks: Vec<Vec<char>>,
    pub evolution_backups: Vec<BackupEntry>,
}

impl EnhancedEvoliKern {
    /// The structural invariant: a non-empty, bounded strategy registry, a
    /// bounded backup list, and uniquely named modules.
    pub open spec fn wf(&self) -> bool {
        &&& 1 <= self.mutation_strategies@.len() <= MAX_STRATEGIES
        &&& self.evolution_backups@.len() <= MAX_BACKUPS
        &&& forall|i: int, j: int|
            0 <= i < j < self.module_genomes@.len() ==> self.module_genomes@[i].name@
                != self.module_genomes@[j].name@
    }

    /// Builds the core around an initial primary genome: two built-in
    /// mutation strategies, no modules, no backups, generation zero, and
    /// the four standing safety rules.
    pub fn new(primary_genome: Vec<char>) -> (k: Self)
        ensures
            k.wf(),
            k.primary_genome == primary_genome,
            k.module_genomes@.len() == 0,
            k.generation == 0,
            k.fitness_score == 0,
            k.memory_usage == 0,
            k.cpu_usage == 0,
            k.disk_usage == 0,
            k.knowledge_dir@ == "evoli_knowledge"@,
            k.internet_cache@ == "evoli_cache"@,
            k.mutation_strategies@.len() == 2,
            k.mutation_strategies@[0] is Basic,
            k.mutation_strategies@[1] is Advanced,
            k.modification_rules@.len() == 0,
            k.internet_enabled,
            k.safety_interlocks.deep_view() =~~= seq![
                "no_system_harm"@,
                "controlled_resource_usage"@,
                "backup_before_mutation"@,
                "validate_compilability"@,
            ],
            k.evolution_backups@.len() == 0,
    {
        let mut mutation_strategies: Vec<StrategyRecord> = Vec::new();
        mutation_strategies.push(StrategyRecord::Basic(BasicMutationStrategy));
        mutation_strategies.push(StrategyRecord::Advanced(AdvancedMutationStrategy));
        let mut safety_interlocks: Vec<Vec<char>> = Vec::new();
        safety_interlocks.push(str_to_chars("no_system_harm"));
        safety_interlocks.push(str_to_chars("controlled_resource_usage"));
        safety_interlocks.push(str_to_chars("backup_before_mutation"));
        safety_interlocks.push(str_to_chars("validate_compilability"));
        let k = EnhancedEvoliKern {
            primary_genome,
            module_genomes: Vec::new(),
            generation: 0,
            fitness_score: 0,
            memory_usage: 0,
            cpu_usage: 0,
            disk_usage: 0,
            knowledge_dir: knowledge_dir_name(),
            internet_cache: cache_dir_name(),
            mutation_strategies,
            modification_rules: Vec::new(),
            internet_enabled: true,
            safety_interlocks,
            evolution_backups: Vec::new(),
        };
        assert(k.safety_interlocks.deep_view() =~~= seq![
            "no_system_harm"@,
            "controlled_resource_usage"@,
            "backup_before_mutation"@,
            "validate_compilability"@,
        ]);
        k
    }

    /// Appends a generation-tagged snapshot of the primary genome to the
    /// backup list, trims the list to its bound with the oldest entry
    /// leaving first, and hands back the backup file for the caller to
    /// persist. The cycle aborts if the caller fails to write it.
    pub fn create_backup(&mut self) -> (backup_file: NamedFile)
        requires
            old(self).wf(),
        ensures
            final(self).wf(),
            backup_views(final(self).evolution_backups@) == push_backup(
                backup_views(old(self).evolution_backups@),
                (old(self).generation as int, old(self).primary_genome@),
            ),
            backup_file.name@ == backup_file_name_spec(old(self).generation as int),
            backup_file.contents@ == old(self).primary_genome@,
            final(self).primary_genome == old(self).primary_genome,
            final(self).module_genomes == old(self).module_genomes,
            final(self).generation == old(self).generation,
            final(self).fitness_score == old(self).fitness_score,
            final(self).memory_usage == old(self).memory_usage,
            final(self).cpu_usage == old(self).cpu_usage,
            final(self).disk_usage == old(self).disk_usage,
            final(self).knowledge_dir == old(self).knowledge_dir,
            final(self).internet_cache == old(self).internet_cache,
            final(self).mutation_strategies == old(self).mutation_strategies,
            final(self).modification_rules == old(self).modification_rules,
            final(self).internet_enabled == old(self).internet_enabled,
            final(self).safety_interlocks == old(self).safety_interlocks,
    {
        let snapshot = copy_range(&self.primary_genome, 0, self.primary_genome.len());
        assert(snapshot@ =~= self.primary_genome@);
        let entry = BackupEntry { generation: self.generation, source_snapshot: snapshot };
        let ghost before = self.evolution_backups@;
        self.evolution_backups.push(entry);
        assert(backup_views(self.evolution_backups@) =~= backup_views(before).push(
            (self.generation as int, self.primary_genome@),
        ));
        if self.evolution_backups.len() > MAX_BACKUPS {
            let ghost pushed = self.evolution_backups@;
            let _oldest = self.evolution_backups.remove(0);
            assert(self.evolution_backups@ =~= pushed.drop_first());
            assert(backup_views(self.evolution_backups@) =~= backup_views(pushed).drop_first());
        }
        let contents = copy_range(&self.primary_genome, 0, self.primary_genome.len());
        assert(contents@ =~= self.primary_genome@);
        let name = backup_file_name(self.generation);
        NamedFile { name, contents }
    }

    /// Overwrites the primary genome unconditionally; callers validate
    /// before calling.
    pub fn replace_primary(&mut self, new_source: Vec<char>)
        requires
            old(self).wf(),
        ensures
            final(self).wf(),
            final(self).primary_genome == new_source,
            final(self).module_genomes == old(self).module_genomes,
            final(self).generation == old(self).generation,
            final(self).fitness_score == old(self).fitness_score,
            final(self).memory_usage == old(self).memory_usage,
            final(self).cpu_usage == old(self).cpu_usage,
            final(self).disk_usage == old(self).disk_usage,
            final(self).knowledge_dir == old(self).knowledge_dir,
            final(self).internet_cache == old(self).internet_cache,
            final(self).mutation_strategies == old(self).mutation_strategies,
            final(self).modification_rules == old(self).modification_rules,
            final(self).internet_enabled == old(self).internet_enabled,
            final(self).safety_interlocks == old(self).safety_interlocks,
            final(self).evolution_backups == old(self).evolution_backups,
    {
        self.primary_genome = new_source;
    }

    /// Closes one evolution cycle: the generation advances by exactly one,
    /// whatever the cycle's mutation and compilation outcomes were, and
    /// nothing else changes.
    pub fn complete_cycle(&mut self)
        requires
            old(self).wf(),
            old(self).generation < u64::MAX,
        ensures
            final(self).wf(),
            final(self).generation == old(self).generation + 1,
            final(self).primary_genome == old(self).primary_genome,
            final(self).module_genomes == old(self).module_genomes,
            final(self).fitness_score == old(self).fitness_score,
            final(self).memory_usage == old(self).memory_usage,
            final(self).cpu_usage == old(self).cpu_usage,
            final(self).disk_usage == old(self).disk_usage,
            final(self).knowledge_dir == old(self).knowledge_dir,
            final(self).internet_cache == old(self).internet_cache,
            final(self).mutation_strategies == old(self).mutation_strategies,
            final(self).modification_rules == old(self).modification_rules,
            final(self).internet_enabled == old(self).internet_enabled,
            final(self).safety_interlocks == old(self).safety_interlocks,
            final(self).evolution_backups == old(self).evolution_backups,
    {
        self.generation = self.generation + 1;
    }

    /// Picks one registered mutation strategy, uniformly at random. The
    /// registry must be non-empty; an empty registry is a programming
    /// error.
    pub fn choose_mutation(&self) -> (idx: usize)
        requires
            self.mutation_strategies@.len() > 0,
        ensures
            idx < self.mutation_strategies@.len(),
    {
        draw_index(self.mutation_strategies.len())
    }

    /// Applies the chosen strategy to the primary genome, yielding the
    /// cycle's candidate.
    pub fn apply_mutation(&self, idx: usize) -> (candidate: Vec<char>)
        requires
            idx < self.mutation_strategies@.len(),
        ensures
            candidate@ == self.mutation_strategies@[idx as int].mutate_spec(
                self.primary_genome@,
            ),
    {
        let strategy = &self.mutation_strategies[idx];
        strategy.mutate(&self.primary_genome)
    }

    /// Whether a candidate differs from the primary genome and so must be
    /// compiled before it can be adopted. A candidate identical to the
    /// primary ends the cycle as "no change": no compiler runs for it.
    pub fn candidate_requires_build(&self, candidate: &Vec<char>) -> (b: bool)
        ensures
            b == (candidate@ != self.primary_genome@),
    {
        !chars_equal(candidate, &self.primary_genome)
    }

    /// Adopts or rejects the cycle's candidate. An unchanged candidate and
    /// a failed compilation both leave the primary genome exactly as it
    /// was; only a compiled candidate replaces it, after the knowledge
    /// splice.
    pub fn apply_evolution_outcome(
        &mut self,
        candidate: &Vec<char>,
        compile_ok: bool,
        knowledge: Option<&Vec<char>>,
    )
        requires
            old(self).wf(),
        ensures
            final(self).wf(),
            final(self).primary_genome@ == pipeline_decision(
                old(self).primary_genome@,
                candidate@,
                compile_ok,
                knowledge_view(knowledge),
            ),
            final(self).module_genomes == old(self).module_genomes,
            final(self).generation == old(self).generation,
            final(self).fitness_score == old(self).fitness_score,
            final(self).memory_usage == old(self).memory_usage,
            final(self).cpu_usage == old(self).cpu_usage,
            final(self).disk_usage == old(self).disk_usage,
            final(self).knowledge_dir == old(self).knowledge_dir,
            final(self).internet_cache == old(self).internet_cache,
            final(self).mutation_strategies == old(self).mutation_strategies,
            final(self).modification_rules == old(self).modification_rules,
            final(self).internet_enabled == old(self).internet_enabled,
            final(self).safety_interlocks == old(self).safety_interlocks,
            final(self).evolution_backups == old(self).evolution_backups,
    {
        if !self.candidate_requires_build(candidate) {
            return ;
        }
        if !compile_ok {
            return ;
        }
        let enhanced = self.integrate_knowledge_into_code(candidate, knowledge);
        self.primary_genome = enhanced;
    }

    /// The 30% chance and uniform pick of one knowledge file to splice
    /// into a validated candidate; `None` where no file exists or the
    /// draw declines.
    pub fn select_knowledge_file(&self, file_count: usize) -> (r: Option<usize>)
        ensures
            match r {
                Some(i) => i < file_count,
                None => true,
            },
            file_count == 0 ==> r is None,
    {
        if file_count == 0 {
            return None;
        }
        let roll: u64 = draw_below(10);
        if roll < 3 {
            Some(draw_index(file_count))
        } else {
            None
        }
    }

    /// Picks, uniformly at random, one of the fixed addresses the learning
    /// cycle retrieves from.
    pub fn choose_learning_url(&self) -> (r: Vec<char>)
        ensures
            r@ == "https://doc.rust-lang.org/book/"@ || r@
                == "https://en.wikipedia.org/wiki/Genetic_algorithm"@ || r@
                == "https://en.wikipedia.org/wiki/Self-modifying_code"@,
    {
        let pick: u64 = draw_below(3);
        if pick == 0 {
            str_to_chars("https://doc.rust-lang.org/book/")
        } else if pick == 1 {
            str_to_chars("https://en.wikipedia.org/wiki/Genetic_algorithm")
        } else {
            str_to_chars("https://en.wikipedia.org/wiki/Self-modifying_code")
        }
    }

    /// With a 5% chance per cycle, and only below the registry bound,
    /// appends one newly developed strategy, named after the current
    /// generation; existing entries never move or leave.
    pub fn develop_new_strategies(&mut self)
        requires
            old(self).wf(),
        ensures
            final(self).wf(),
            final(self).mutation_strategies@.len() <= MAX_STRATEGIES,
            old(self).mutation_strategies@.len() <= final(self).mutation_strategies@.len()
                <= old(self).mutation_strategies@.len() + 1,
            forall|i: int|
                0 <= i < old(self).mutation_strategies@.len()
                    ==> final(self).mutation_strategies@[i] == old(self).mutation_strategies@[i],
            final(self).mutation_strategies@.len() > old(self).mutation_strategies@.len() ==> {
                &&& old(self).mutation_strategies@.len() < MAX_STRATEGIES
                &&& final(self).mutation_strategies@.last() is SelfDeveloped
                &&& final(self).mutation_strategies@.last().name_spec()
                    == developed_strategy_name(old(self).generation as int)
            },
            final(self).primary_genome == old(self).primary_genome,
            final(self).module_genomes == old(self).module_genomes,
            final(self).generation == old(self).generation,
            final(self).fitness_score == old(self).fitness_score,
            final(self).memory_usage == old(self).memory_usage,
            final(self).cpu_usage == old(self).cpu_usage,
            final(self).disk_usage == old(self).disk_usage,
            final(self).knowledge_dir == old(self).knowledge_dir,
            final(self).internet_cache == old(self).internet_cache,
            final(self).modification_rules == old(self).modification_rules,
            final(self).internet_enabled == old(self).internet_enabled,
            final(self).safety_interlocks == old(self).safety_interlocks,
            final(self).evolution_backups == old(self).evolution_backups,
    {
        let roll: u64 = draw_below(100);
        if roll < 5 && self.mutation_strategies.len() < MAX_STRATEGIES {
            let mut name = str_to_chars("EvolvdStrategy_");
            let mut digits = u64_to_chars(self.generation);
            name.append(&mut digits);
            assert(name@ =~= developed_strategy_name(self.generation as int));
            let strategy = SelfDevelopedMutationStrategy { name };
            self.mutation_strategies.push(StrategyRecord::SelfDeveloped(strategy));
        }
    }
}

/// The primary genome after one pipeline run: unchanged for an identical
/// candidate or a failed compilation; the spliced candidate after a
/// successful one.
pub open spec fn pipeline_decision(
    primary: Seq<char>,
    candidate: Seq<char>,
    compile_ok: bool,
    knowledge: Option<Seq<char>>,
) -> Seq<char> {
    if candidate == primary {
        primary
    } else if !compile_ok {
        primary
    } else {
        integrate_spec(candidate, knowledge)
    }
}

/// The name a strategy developed at this generation receives.
pub open spec fn developed_strategy_name(generation: int) -> Seq<char> {
    "EvolvdStrategy_"@ + dec_digits(generation)
}

/// A mutation that changes nothing leaves the primary genome exactly as it
/// was, whatever the compiler outcome or knowledge choice would have been;
/// `candidate_requires_build` is false for it, so no compiler runs at all.
pub proof fn lemma_unchanged_candidate_keeps_primary(
    primary: Seq<char>,
    compile_ok: bool,
    knowledge: Option<Seq<char>>,
)
    ensures
        pipeline_decision(primary, primary, compile_ok, knowledge) == primary,
{
}

/// A failed compilation leaves the primary genome bit for bit as it was,
/// whatever the candidate and knowledge choice were.
pub proof fn lemma_failed_compile_keeps_primary(
    primary: Seq<char>,
    candidate: Seq<char>,
    knowledge: Option<Seq<char>>,
)
    ensures
        pipeline_decision(primary, candidate, false, knowledge) == primary,
{
}

/// The backup list after a whole run of snapshots, appended in order.
pub open spec fn push_backup_all(
    views: Seq<(int, Seq<char>)>,
    entries: Seq<(int, Seq<char>)>,
) -> Seq<(int, Seq<char>)>
    decreases entries.len(),
{
    if entries.len() == 0 {
        views
    } else {
        push_backup_all(push_backup(views, entries[0]), entries.drop_first())
    }
}

/// One snapshot never pushes the backup list past its bound of ten.
pub proof fn lemma_backup_list_bounded(views: Seq<(int, Seq<char>)>, e: (int, Seq<char>))
    requires
        views.len() <= MAX_BACKUPS,
    ensures
        push_backup(views, e).len() <= MAX_BACKUPS,
{
}

proof fn lemma_push_backup_all_window(
    views: Seq<(int, Seq<char>)>,
    entries: Seq<(int, Seq<char>)>,
)
    requires
        views.len() <= MAX_BACKUPS,
    ensures
        ({
            let total = views.len() + entries.len();
            let cut = if total > MAX_BACKUPS {
                total - MAX_BACKUPS
            } else {
                0
            };
            push_backup_all(views, entries) == (views + entries).skip(cut as int)
        }),
    decreases entries.len(),
{
    let total = views.len() + entries.len();
    let cut: int = if total > MAX_BACKUPS {
        total - MAX_BACKUPS
    } else {
        0
    };
    if entries.len() == 0 {
        assert((views + entries).skip(0) =~= views);
    } else {
        let e0 = entries[0];
        let rest = entries.drop_first();
        let v2 = push_backup(views, e0);
        lemma_push_backup_all_window(v2, rest);
        let total2 = v2.len() + rest.len();
        let cut2: int = if total2 > MAX_BACKUPS {
            total2 - MAX_BACKUPS
        } else {
            0
        };
        if views.len() < MAX_BACKUPS {
            assert(v2 =~= views.push(e0));
            assert(v2 + rest =~= views + entries);
            assert(cut2 == cut);
        } else {
            assert(v2 =~= (views + entries).drop_first().take(views.len() as int));
            assert(v2 + rest =~= (views + entries).drop_first());
            assert(((views + entries).drop_first()).skip(cut2) =~= (views + entries).skip(
                cut2 + 1,
            ));
            assert(cut == cut2 + 1);
        }
    }
}

/// After ten or more snapshots, the backup list holds exactly the ten most
/// recent of them, in order, whatever it held before.
pub proof fn lemma_backups_hold_most_recent(
    views: Seq<(int, Seq<char>)>,
    entries: Seq<(int, Seq<char>)>,
)
    requires
        views.len() <= MAX_BACKUPS,
        entries.len() >= MAX_BACKUPS,
    ensures
        push_backup_all(views, entries) == entries.skip(entries.len() - MAX_BACKUPS),
{
    lemma_push_backup_all_window(views, entries);
    let total = views.len() + entries.len();
    let cut = total - MAX_BACKUPS;
    assert((views + entries).skip(cut as int) =~= entries.skip(entries.len() - MAX_BACKUPS));
}

/// How many entries of the module map carry this name.
pub open spec fn count_module_name(views: Seq<(Seq<char>, Seq<char>)>, name: Seq<char>) -> int
    decreases views.len(),
{
    if views.len() == 0 {
        0
    } else {
        (if views[0].0 == name {
            1int
        } else {
            0int
        }) + count_module_name(views.drop_first(), name)
    }
}

proof fn lemma_count_module_push(
    views: Seq<(Seq<char>, Seq<char>)>,
    entry: (Seq<char>, Seq<char>),
    name: Seq<char>,
)
    ensures
        count_module_name(views.push(entry), name) == count_module_name(views, name) + (
        if entry.0 == name {
            1int
        } else {
            0int
        }),
    decreases views.len(),
{
    if views.len() == 0 {
        assert(views.push(entry).drop_first() =~= views);
    } else {
        assert(views.push(entry)[0] == views[0]);
        assert(views.push(entry).drop_first() =~= views.drop_first().push(entry));
        lemma_count_module_push(views.drop_first(), entry, name);
    }
}

proof fn lemma_absent_module_count_zero(views: Seq<(Seq<char>, Seq<char>)>, name: Seq<char>)
    requires
        !has_module(views, name),
    ensures
        count_module_name(views, name) == 0,
    decreases views.len(),
{
    if views.len() > 0 {
        assert(views[0].0 != name);
        assert(!has_module(views.drop_first(), name)) by {
            if has_module(views.drop_first(), name) {
                let i = choose|i: int|
                    0 <= i < views.drop_first().len() && views.drop_first()[i].0 == name;
                assert(views[i + 1].0 == name);
            }
        }
        lemma_absent_module_count_zero(views.drop_first(), name);
    }
}

/// Module synthesis is idempotent: running it twice for one module type
/// changes the map exactly as running it once does, and a name absent at
/// the start is stored exactly once.
pub proof fn lemma_module_synthesis_idempotent(views: Seq<(Seq<char>, Seq<char>)>, t: int)
    ensures
        modules_after(modules_after(views, t), t) == modules_after(views, t),
        !has_module(views, derived_module_name(t)) ==> count_module_name(
            modules_after(modules_after(views, t), t),
            derived_module_name(t),
        ) == 1,
{
    let name = derived_module_name(t);
    let v1 = modules_after(views, t);
    if has_module(views, name) {
    } else {
        assert(v1 == views.push((name, module_code_spec(t))));
        assert(v1[views.len() as int].0 == name);
        assert(has_module(v1, name));
        lemma_absent_module_count_zero(views, name);
        lemma_count_module_push(views, (name, module_code_spec(t)), name);
    }
}

/// The fixed module types synthesis chooses among.
pub open spec fn module_type_name(t: int) -> Seq<char> {
    if t == 0 {
        "data_processor"@
    } else if t == 1 {
        "network_interface"@
    } else if t == 2 {
        "learning_system"@
    } else {
        "code_analyzer"@
    }
}

/// The module name derived from a module type.
pub open spec fn derived_module_name(t: int) -> Seq<char> {
    "evoli_module_"@ + module_type_name(t)
}

/// The boilerplate body synthesized for a module type: a templated struct
/// with a name field, a version field and a trivial processing operation.
pub open spec fn module_code_spec(t: int) -> Seq<char> {
    "// Automatisch generiertes Modul: "@ + derived_module_name(t) + "\npub struct "@
        + module_type_name(t) + "Module {\n\tname: String,\n\tversion: f32,\n}\n\nimpl "@
        + module_type_name(t) + "Module {\n\tpub fn new() -> Self {\n\t\tSelf {\n\t\t\tname: \""@
        + derived_module_name(t)
        + "\".to_string(),\n\t\t\tversion: 0.1\n\t\t}\n\t}\n\n\tpub fn process(&self, data: &str) -> String {\n\t\tformat!(\"Processed by {}: {}\", self.name, data)\n\t}\n}\n"@
}

/// The module map after synthesis for one module type: unchanged where the
/// derived name is present, else with the templated entry appended.
pub open spec fn modules_after(views: Seq<(Seq<char>, Seq<char>)>, t: int) -> Seq<
    (Seq<char>, Seq<char>),
> {
    if has_module(views, derived_module_name(t)) {
        views
    } else {
        views.push((derived_module_name(t), module_code_spec(t)))
    }
}

fn module_type_name_vec(t: usize) -> (r: Vec<char>)
    requires
        t < 4,
    ensures
        r@ == module_type_name(t as int),
{
    if t == 0 {
        str_to_chars("data_processor")
    } else if t == 1 {
        str_to_chars("network_interface")
    } else if t == 2 {
        str_to_chars("learning_system")
    } else {
        str_to_chars("code_analyzer")
    }
}

fn module_code(t: usize) -> (r: Vec<char>)
    requires
        t < 4,
    ensures
        r@ == module_code_spec(t as int),
{
    let mut r = str_to_chars("// Automatisch generiertes Modul: ");
    let mut part = derived_module_name_vec(t);
    r.append(&mut part);
    let mut part = str_to_chars("\npub struct ");
    r.append(&mut part);
    let mut part = module_type_name_vec(t);
    r.append(&mut part);
    let mut part = str_to_chars("Module {\n\tname: String,\n\tversion: f32,\n}\n\nimpl ");
    r.append(&mut part);
    let mut part = module_type_name_vec(t);
    r.append(&mut part);
    let mut part = str_to_chars(
        "Module {\n\tpub fn new() -> Self {\n\t\tSelf {\n\t\t\tname: \"",
    );
    r.append(&mut part);
    let mut part = derived_module_name_vec(t);
    r.append(&mut part);
    let mut part = str_to_chars(
        "\".to_string(),\n\t\t\tversion: 0.1\n\t\t}\n\t}\n\n\tpub fn process(&self, data: &str) -> String {\n\t\tformat!(\"Processed by {}: {}\", self.name, data)\n\t}\n}\n",
    );
    r.append(&mut part);
    assert(r@ =~= module_code_spec(t as int));
    r
}

fn derived_module_name_vec(t: usize) -> (r: Vec<char>)
    requires
        t < 4,
    ensures
        r@ == derived_module_name(t as int),
{
    let mut r = str_to_chars("evoli_module_");
    let mut tail = module_type_name_vec(t);
    r.append(&mut tail);
    assert(r@ =~= derived_module_name(t as int));
    r
}

impl EnhancedEvoliKern {
    fn module_exists(&self, name: &Vec<char>) -> (b: bool)
        ensures
            b == has_module(module_views(self.module_genomes@), name@),
    {
        let ghost views = module_views(self.module_genomes@);
        let mut i: usize = 0;
        while i < self.module_genomes.len()
            invariant
                i <= self.module_genomes@.len(),
                views == module_views(self.module_genomes@),
                views.len() == self.module_genomes@.len(),
                forall|k: int| 0 <= k < i ==> views[k].0 != name@,
            decreases self.module_genomes@.len() - i,
        {
            if chars_equal(&self.module_genomes[i].name, name) {
                assert(views[i as int].0 == name@);
                return true;
            }
            i = i + 1;
        }
        assert(!has_module(views, name@));
        false
    }

    /// Synthesizes the module of one type: a no-op where the derived name
    /// already exists; otherwise the templated body enters the module map
    /// and comes back as a file for the caller to persist.
    pub fn synthesize_module(&mut self, type_index: usize) -> (created: Option<NamedFile>)
        requires
            old(self).wf(),
            type_index < 4,
        ensures
            final(self).wf(),
            module_views(final(self).module_genomes@) == modules_after(
                module_views(old(self).module_genomes@),
                type_index as int,
            ),
            match created {
                Some(file) => !has_module(
                    module_views(old(self).module_genomes@),
                    derived_module_name(type_index as int),
                ) && file.name@ == crate::names::module_file_name_spec(
                    derived_module_name(type_index as int),
                ) && file.contents@ == module_code_spec(type_index as int),
                None => has_module(
                    module_views(old(self).module_genomes@),
                    derived_module_name(type_index as int),
                ),
            },
            final(self).primary_genome == old(self).primary_genome,
            final(self).generation == old(self).generation,
            final(self).fitness_score == old(self).fitness_score,
            final(self).memory_usage == old(self).memory_usage,
            final(self).cpu_usage == old(self).cpu_usage,
            final(self).disk_usage == old(self).disk_usage,
            final(self).knowledge_dir == old(self).knowledge_dir,
            final(self).internet_cache == old(self).internet_cache,
            final(self).mutation_strategies == old(self).mutation_strategies,
            final(self).modification_rules == old(self).modification_rules,
            final(self).internet_enabled == old(self).internet_enabled,
            final(self).safety_interlocks == old(self).safety_interlocks,
            final(self).evolution_backups == old(self).evolution_backups,
    {
        let module_name = derived_module_name_vec(type_index);
        if self.module_exists(&module_name) {
            return None;
        }
        let code = module_code(type_index);
        let file_name = crate::names::module_file_name(&module_name);
        let file_contents = copy_range(&code, 0, code.len());
        assert(file_contents@ =~= code@);
        let ghost before = module_views(self.module_genomes@);
        self.module_genomes.push(ModuleEntry { name: module_name, code });
        assert(module_views(self.module_genomes@) =~= before.push(
            (derived_module_name(type_index as int), module_code_spec(type_index as int)),
        ));
        proof {
            let g = self.module_genomes@;
            let og = old(self).module_genomes@;
            assert forall|i: int, j: int| 0 <= i < j < g.len() implies g[i].name@
                != g[j].name@ by {
                if j < og.len() {
                    assert(og[i].name@ != og[j].name@);
                } else {
                    assert(g[j].name@ == derived_module_name(type_index as int));
                    assert(before[i].0 == og[i].name@);
                    assert(before[i].0 != derived_module_name(type_index as int));
                }
            }
        }
        Some(NamedFile { name: file_name, contents: file_contents })
    }

    /// With a 10% chance per cycle, synthesizes the module of one randomly
    /// chosen type. Whatever the draws, either nothing changes, or exactly
    /// one absent module of a fixed type is added and its file handed back.
    pub fn try_create_new_module(&mut self) -> (created: Option<NamedFile>)
        requires
            old(self).wf(),
        ensures
            final(self).wf(),
            match created {
                None => module_views(final(self).module_genomes@) == module_views(
                    old(self).module_genomes@,
                ),
                Some(file) => exists|t: int|
                    #![auto]
                    0 <= t < 4 && !has_module(
                        module_views(old(self).module_genomes@),
                        derived_module_name(t),
                    ) && file.name@ == crate::names::module_file_name_spec(derived_module_name(t))
                        && file.contents@ == module_code_spec(t) && module_views(
                        final(self).module_genomes@,
                    ) == module_views(old(self).module_genomes@).push(
                        (derived_module_name(t), module_code_spec(t)),
                    ),
            },
            final(self).primary_genome == old(self).primary_genome,
            final(self).generation == old(self).generation,
            final(self).fitness_score == old(self).fitness_score,
            final(self).memory_usage == old(self).memory_usage,
            final(self).cpu_usage == old(self).cpu_usage,
            final(self).disk_usage == old(self).disk_usage,
            final(self).knowledge_dir == old(self).knowledge_dir,
            final(self).internet_cache == old(self).internet_cache,
            final(self).mutation_strategies == old(self).mutation_strategies,
            final(self).modification_rules == old(self).modification_rules,
            final(self).internet_enabled == old(self).internet_enabled,
            final(self).safety_interlocks == old(self).safety_interlocks,
            final(self).evolution_backups == old(self).evolution_backups,
    {
        let roll: u64 = draw_below(10);
        if roll < 1 {
            let type_index = draw_index(4);
            self.synthesize_module(type_index)
        } else {
            None
        }
    }
}

/// The measured inputs of one cycle's environment analysis, taken by the
/// caller: a memory-footprint estimate, a busy-loop processor sample,
/// uptime, and the running counters.
pub struct EnvironmentSample {
    pub memory_usage: usize,
    pub cpu_sample: u64,
    pub uptime_seconds: u64,
    pub successful_compilations: u64,
    pub failed_compilations: u64,
    pub internet_requests: u64,
    pub knowledge_items: u64,
}

impl EnhancedEvoliKern {
    /// Records the cycle's measurements on the core, computes the aggregate
    /// disk usage of the two managed directories from their scans, and
    /// assembles the ephemeral metrics snapshot for fitness evaluators.
    pub fn analyze_environment(
        &mut self,
        sample: EnvironmentSample,
        knowledge_files: &Vec<ManagedFile>,
        cache_files: &Vec<ManagedFile>,
    ) -> (metrics: RuntimeMetrics)
        requires
            old(self).wf(),
        ensures
            final(self).wf(),
            final(self).memory_usage == sample.memory_usage,
            final(self).cpu_usage == sample.cpu_sample,
            final(self).disk_usage as int == sat_cap(
                total_size(knowledge_files@) + total_size(cache_files@),
            ),
            metrics.memory_usage == sample.memory_usage,
            metrics.cpu_usage == sample.cpu_sample,
            metrics.disk_usage == final(self).disk_usage,
            metrics.uptime_seconds == sample.uptime_seconds,
            metrics.successful_compilations == sample.successful_compilations,
            metrics.failed_compilations == sample.failed_compilations,
            metrics.internet_requests == sample.internet_requests,
            metrics.knowledge_items == sample.knowledge_items,
            final(self).primary_genome == old(self).primary_genome,
            final(self).module_genomes == old(self).module_genomes,
            final(self).generation == old(self).generation,
            final(self).fitness_score == old(self).fitness_score,
            final(self).knowledge_dir == old(self).knowledge_dir,
            final(self).internet_cache == old(self).internet_cache,
            final(self).mutation_strategies == old(self).mutation_strategies,
            final(self).modification_rules == old(self).modification_rules,
            final(self).internet_enabled == old(self).internet_enabled,
            final(self).safety_interlocks == old(self).safety_interlocks,
            final(self).evolution_backups == old(self).evolution_backups,
    {
        self.memory_usage = sample.memory_usage;
        self.cpu_usage = sample.cpu_sample;
        self.disk_usage = self.calculate_disk_usage(knowledge_files, cache_files);
        RuntimeMetrics {
            memory_usage: sample.memory_usage,
            cpu_usage: sample.cpu_sample,
            disk_usage: self.disk_usage,
            uptime_seconds: sample.uptime_seconds,
            successful_compilations: sample.successful_compilations,
            failed_compilations: sample.failed_compilations,
            internet_requests: sample.internet_requests,
            knowledge_items: sample.knowledge_items,
        }
    }

    /// The aggregate byte count of the two managed directories, from their
    /// scans, capped at the largest representable value.
    pub fn calculate_disk_usage(
        &self,
        knowledge_files: &Vec<ManagedFile>,
        cache_files: &Vec<ManagedFile>,
    ) -> (r: u64)
        ensures
            r as int == sat_cap(total_size(knowledge_files@) + total_size(cache_files@)),
    {
        combined_usage(knowledge_files, cache_files)
    }

    /// Plans one governance pass: nothing while the aggregate usage stays
    /// at or below the high-water mark (8/10 of capacity); above it, the
    /// retrieval cache is cut toward the low-water target (half of
    /// capacity) first, and the knowledge store after it only if the
    /// remainder is still above the high-water mark. The caller deletes the
    /// planned files; a file whose deletion fails is logged and skipped.
    pub fn manage_storage(
        &self,
        knowledge_files: Vec<ManagedFile>,
        cache_files: Vec<ManagedFile>,
        capacity: u64,
    ) -> (plan: StoragePlan)
        requires
            capacity <= u64::MAX / 8,
        ensures
            plan.cache_victims@ == governance_spec(
                knowledge_files@,
                cache_files@,
                capacity as int,
            ).0,
            plan.knowledge_victims@ == governance_spec(
                knowledge_files@,
                cache_files@,
                capacity as int,
            ).1,
    {
        plan_governance(knowledge_files, cache_files, capacity)
    }

    /// Plans one eviction pass over one directory scan: files leave in
    /// ascending order of last-modified time until the running usage is at
    /// most `target_size` or the directory is exhausted.
    pub fn clean_directory(
        &self,
        files: Vec<ManagedFile>,
        current_usage: u64,
        target_size: u64,
    ) -> (victims: Vec<ManagedFile>)
        ensures
            victims@ == evict_plan(files@, current_usage as int, target_size as int),
            usage_after(current_usage as int, victims@) <= target_size || victims@.len()
                == files@.len(),
    {
        plan_eviction(files, current_usage, target_size)
    }
}

} // verus!
