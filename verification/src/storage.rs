//! Storage governance: measuring directory usage and planning oldest-first
//! eviction down to a target size. The planner works on directory scans
//! handed in as plain values and returns the files to delete; it touches no
//! file itself.
use vstd::prelude::*;

verus! {

/// One file found by a directory scan: its name, its byte length, and its
/// last-modified stamp (any monotone clock, typically seconds).
#[derive(Clone)]
pub struct ManagedFile {
    pub path: Vec<char>,
    pub size: u64,
    pub modified: u64,
}

/// Saturating subtraction over mathematical integers.
pub open spec fn sat_sub(a: int, b: int) -> int {
    if a >= b {
        a - b
    } else {
        0
    }
}

/// Caps a sum at the largest representable byte count.
pub open spec fn sat_cap(a: int) -> int {
    if a > u64::MAX {
        u64::MAX as int
    } else {
        a
    }
}

/// The sum of the byte lengths of the scanned files.
pub open spec fn total_size(s: Seq<ManagedFile>) -> int
    decreases s.len(),
{
    if s.len() == 0 {
        0
    } else {
        s[0].size + total_size(s.drop_first())
    }
}

pub proof fn lemma_total_size_nonneg(s: Seq<ManagedFile>)
    ensures
        total_size(s) >= 0,
    decreases s.len(),
{
    if s.len() > 0 {
        lemma_total_size_nonneg(s.drop_first());
    }
}

pub proof fn lemma_total_size_push(s: Seq<ManagedFile>, f: ManagedFile)
    ensures
        total_size(s.push(f)) == total_size(s) + f.size,
    decreases s.len(),
{
    if s.len() == 0 {
        assert(s.push(f).drop_first() =~= s);
    } else {
        assert(s.push(f).drop_first() =~= s.drop_first().push(f));
        lemma_total_size_push(s.drop_first(), f);
    }
}

/// Places `f` behind every entry of the age-sorted `t` that is not strictly
/// newer, so that entries of equal age keep their existing order.
pub open spec fn insert_by_age_spec(t: Seq<ManagedFile>, f: ManagedFile) -> Seq<ManagedFile>
    decreases t.len(),
{
    if t.len() == 0 {
        seq![f]
    } else if t.last().modified <= f.modified {
        t.push(f)
    } else {
        insert_by_age_spec(t.drop_last(), f).push(t.last())
    }
}

/// Stable sort by ascending last-modified time: the eviction order. Files
/// with equal stamps keep the order of the scan.
pub open spec fn sort_by_age_spec(s: Seq<ManagedFile>) -> Seq<ManagedFile>
    decreases s.len(),
{
    if s.len() == 0 {
        Seq::empty()
    } else {
        insert_by_age_spec(sort_by_age_spec(s.drop_last()), s.last())
    }
}

proof fn lemma_insert_position(t: Seq<ManagedFile>, f: ManagedFile, i: int)
    requires
        0 <= i <= t.len(),
        forall|k: int| i <= k < t.len() ==> t[k].modified > f.modified,
        i > 0 ==> t[i - 1].modified <= f.modified,
    ensures
        insert_by_age_spec(t, f) == t.subrange(0, i) + seq![f] + t.subrange(i, t.len() as int),
    decreases t.len(),
{
    if t.len() == 0 {
        assert(insert_by_age_spec(t, f) =~= t.subrange(0, i) + seq![f] + t.subrange(
            i,
            t.len() as int,
        ));
    } else if t.last().modified <= f.modified {
        assert(i == t.len());
        assert(t.push(f) =~= t.subrange(0, i) + seq![f] + t.subrange(i, t.len() as int));
    } else {
        let dl = t.drop_last();
        assert(forall|k: int| i <= k < dl.len() ==> dl[k].modified > f.modified);
        lemma_insert_position(dl, f, i);
        assert(insert_by_age_spec(dl, f).push(t.last()) =~= t.subrange(0, i) + seq![f]
            + t.subrange(i, t.len() as int));
    }
}

/// Inserts `f` into the age-sorted `t`, behind entries of equal age.
pub fn insert_by_age(t: &mut Vec<ManagedFile>, f: ManagedFile)
    ensures
        final(t)@ == insert_by_age_spec(old(t)@, f),
{
    let mut i: usize = t.len();
    while i > 0 && t[i - 1].modified > f.modified
        invariant
            i <= t@.len(),
            forall|k: int| i <= k < t@.len() ==> t@[k].modified > f.modified,
        decreases i,
    {
        i = i - 1;
    }
    proof {
        lemma_insert_position(t@, f, i as int);
    }
    let ghost before = t@;
    t.insert(i, f);
    assert(t@ =~= before.subrange(0, i as int) + seq![f] + before.subrange(
        i as int,
        before.len() as int,
    ));
}

/// Sorts a directory scan by ascending last-modified time (stable).
pub fn sort_by_age(files: Vec<ManagedFile>) -> (r: Vec<ManagedFile>)
    ensures
        r@ == sort_by_age_spec(files@),
{
    let ghost orig = files@;
    let mut rest = files;
    let mut acc: Vec<ManagedFile> = Vec::new();
    let ghost k: int = 0;
    while rest.len() > 0
        invariant
            0 <= k <= orig.len(),
            rest@ == orig.skip(k),
            acc@ == sort_by_age_spec(orig.take(k)),
        decreases rest@.len(),
    {
        let f = rest.remove(0);
        assert(f == orig[k]);
        assert(rest@ =~= orig.skip(k + 1));
        insert_by_age(&mut acc, f);
        proof {
            assert(orig.take(k + 1).drop_last() =~= orig.take(k));
            assert(orig.take(k + 1).last() == orig[k]);
            k = k + 1;
        }
    }
    assert(orig.take(k) =~= orig);
    acc
}

/// How many entries of the age-sorted list an eviction pass removes: files
/// leave oldest first while the running usage is still above the target.
pub open spec fn evict_count(s: Seq<ManagedFile>, usage: int, target: int) -> int
    decreases s.len(),
{
    if usage <= target || s.len() == 0 {
        0
    } else {
        1 + evict_count(s.drop_first(), sat_sub(usage, s[0].size as int), target)
    }
}

/// The running usage after the planned deletions.
pub open spec fn usage_after(usage: int, victims: Seq<ManagedFile>) -> int
    decreases victims.len(),
{
    if victims.len() == 0 {
        usage
    } else {
        usage_after(sat_sub(usage, victims[0].size as int), victims.drop_first())
    }
}

/// The files one eviction pass over a directory removes: the scan in
/// ascending age order, cut off once the running usage reaches the target.
pub open spec fn evict_plan(s: Seq<ManagedFile>, usage: int, target: int) -> Seq<ManagedFile> {
    let sorted = sort_by_age_spec(s);
    sorted.take(evict_count(sorted, usage, target))
}

/// Plans one eviction pass over a directory scan. `current_usage` is the
/// aggregate usage the pass starts from (it may span more than this one
/// directory); files leave oldest first until it is at most `target_size`
/// or the directory is exhausted.
pub fn plan_eviction(files: Vec<ManagedFile>, current_usage: u64, target_size: u64) -> (victims:
    Vec<ManagedFile>)
    ensures
        victims@ == evict_plan(files@, current_usage as int, target_size as int),
        usage_after(current_usage as int, victims@) <= target_size || victims@.len()
            == files@.len(),
{
    let ghost fseq = files@;
    let mut sorted = sort_by_age(files);
    let ghost sseq = sorted@;
    let mut victims: Vec<ManagedFile> = Vec::new();
    let mut usage: u64 = current_usage;
    let ghost j: int = 0;
    while sorted.len() > 0 && usage > target_size
        invariant
            0 <= j <= sseq.len(),
            victims@ == sseq.take(j),
            sorted@ == sseq.skip(j),
            usage as int == usage_after(current_usage as int, victims@),
            evict_count(sseq, current_usage as int, target_size as int) == j + evict_count(
                sseq.skip(j),
                usage as int,
                target_size as int,
            ),
        decreases sorted@.len(),
    {
        let f = sorted.remove(0);
        assert(f == sseq[j]);
        assert(sorted@ =~= sseq.skip(j + 1));
        let fsize: u64 = f.size;
        proof {
            assert(sseq.skip(j).drop_first() =~= sseq.skip(j + 1));
        }
        victims.push(f);
        if usage >= fsize {
            usage = usage - fsize;
        } else {
            usage = 0;
        }
        proof {
            assert(victims@ =~= sseq.take(j + 1));
            lemma_usage_after_push(current_usage as int, sseq.take(j), sseq[j], usage as int);
            j = j + 1;
        }
    }
    proof {
        assert(evict_count(sseq.skip(j), usage as int, target_size as int) == 0);
        assert(victims@ =~= evict_plan(fseq, current_usage as int, target_size as int));
        if usage > target_size {
            assert(sseq.skip(j).len() == 0);
            assert(j == sseq.len());
            lemma_sort_by_age_len(fseq);
        }
    }
    victims
}

proof fn lemma_usage_after_push(usage0: int, v: Seq<ManagedFile>, f: ManagedFile, u2: int)
    requires
        u2 == sat_sub(usage_after(usage0, v), f.size as int),
    ensures
        usage_after(usage0, v.push(f)) == u2,
    decreases v.len(),
{
    if v.len() == 0 {
        assert(v.push(f)[0] == f);
        assert(v.push(f).drop_first() =~= Seq::<ManagedFile>::empty());
        assert(usage_after(sat_sub(usage0, f.size as int), Seq::<ManagedFile>::empty()) == sat_sub(
            usage0,
            f.size as int,
        ));
        assert(usage_after(usage0, Seq::<ManagedFile>::empty()) == usage0);
    } else {
        assert(v.push(f)[0] == v[0]);
        assert(v.push(f).drop_first() =~= v.drop_first().push(f));
        lemma_usage_after_push(sat_sub(usage0, v[0].size as int), v.drop_first(), f, u2);
    }
}

pub proof fn lemma_insert_by_age_len(t: Seq<ManagedFile>, f: ManagedFile)
    ensures
        insert_by_age_spec(t, f).len() == t.len() + 1,
    decreases t.len(),
{
    if t.len() > 0 && !(t.last().modified <= f.modified) {
        lemma_insert_by_age_len(t.drop_last(), f);
    }
}

pub proof fn lemma_sort_by_age_len(s: Seq<ManagedFile>)
    ensures
        sort_by_age_spec(s).len() == s.len(),
    decreases s.len(),
{
    if s.len() > 0 {
        lemma_sort_by_age_len(s.drop_last());
        lemma_insert_by_age_len(sort_by_age_spec(s.drop_last()), s.last());
    }
}

/// The aggregate byte count of one directory scan, capped at the largest
/// representable value.
pub fn directory_usage(files: &Vec<ManagedFile>) -> (r: u64)
    ensures
        r as int == sat_cap(total_size(files@)),
{
    let mut r: u64 = 0;
    let mut i: usize = 0;
    while i < files.len()
        invariant
            i <= files@.len(),
            r as int == sat_cap(total_size(files@.take(i as int))),
        decreases files@.len() - i,
    {
        let fsize: u64 = files[i].size;
        proof {
            assert(files@.take(i + 1) =~= files@.take(i as int).push(files@[i as int]));
            lemma_total_size_push(files@.take(i as int), files@[i as int]);
            lemma_total_size_nonneg(files@.take(i as int));
        }
        if r <= u64::MAX - fsize {
            r = r + fsize;
        } else {
            r = u64::MAX;
        }
        i = i + 1;
    }
    assert(files@.take(files@.len() as int) =~= files@);
    r
}

/// The aggregate byte count across both managed directories, capped.
pub fn combined_usage(a: &Vec<ManagedFile>, b: &Vec<ManagedFile>) -> (r: u64)
    ensures
        r as int == sat_cap(total_size(a@) + total_size(b@)),
{
    let au: u64 = directory_usage(a);
    let bu: u64 = directory_usage(b);
    proof {
        lemma_total_size_nonneg(a@);
        lemma_total_size_nonneg(b@);
    }
    if au <= u64::MAX - bu {
        au + bu
    } else {
        u64::MAX
    }
}

/// What one governance pass deletes: first from the retrieval cache, then —
/// if the aggregate is still above the high-water mark — from the knowledge
/// store.
pub struct StoragePlan {
    pub cache_victims: Vec<ManagedFile>,
    pub knowledge_victims: Vec<ManagedFile>,
}

/// The cache-then-knowledge eviction plan of one governance pass: nothing
/// below the high-water mark (8/10 of capacity); above it, each directory is
/// cut toward the same low-water target (half of capacity), the cache first.
pub open spec fn governance_spec(
    knowledge: Seq<ManagedFile>,
    cache: Seq<ManagedFile>,
    capacity: int,
) -> (Seq<ManagedFile>, Seq<ManagedFile>) {
    let usage = sat_cap(total_size(knowledge) + total_size(cache));
    let threshold = capacity * 8 / 10;
    let target = capacity / 2;
    if usage <= threshold {
        (Seq::empty(), Seq::empty())
    } else {
        let cache_victims = evict_plan(cache, usage, target);
        let usage2 = usage_after(usage, cache_victims);
        if usage2 > threshold {
            (cache_victims, evict_plan(knowledge, usage2, target))
        } else {
            (cache_victims, Seq::empty())
        }
    }
}

/// Plans one governance pass over the two managed directories.
pub fn plan_governance(
    knowledge_files: Vec<ManagedFile>,
    cache_files: Vec<ManagedFile>,
    capacity: u64,
) -> (plan: StoragePlan)
    requires
        capacity <= u64::MAX / 8,
    ensures
        plan.cache_victims@ == governance_spec(knowledge_files@, cache_files@, capacity as int).0,
        plan.knowledge_victims@ == governance_spec(
            knowledge_files@,
            cache_files@,
            capacity as int,
        ).1,
{
    let ghost kseq = knowledge_files@;
    let ghost cseq = cache_files@;
    let usage: u64 = combined_usage(&knowledge_files, &cache_files);
    let threshold: u64 = capacity * 8 / 10;
    let target: u64 = capacity / 2;
    if usage <= threshold {
        StoragePlan { cache_victims: Vec::new(), knowledge_victims: Vec::new() }
    } else {
        let cache_victims = plan_eviction(cache_files, usage, target);
        let usage2: u64 = remaining_usage(usage, &cache_victims);
        if usage2 > threshold {
            let knowledge_victims = plan_eviction(knowledge_files, usage2, target);
            StoragePlan { cache_victims, knowledge_victims }
        } else {
            StoragePlan { cache_victims, knowledge_victims: Vec::new() }
        }
    }
}

proof fn lemma_insert_by_age_total(t: Seq<ManagedFile>, f: ManagedFile)
    ensures
        total_size(insert_by_age_spec(t, f)) == total_size(t) + f.size,
    decreases t.len(),
{
    if t.len() == 0 {
        assert(insert_by_age_spec(t, f) =~= t.push(f));
        lemma_total_size_push(t, f);
    } else if t.last().modified <= f.modified {
        lemma_total_size_push(t, f);
    } else {
        let dl = t.drop_last();
        lemma_insert_by_age_total(dl, f);
        lemma_total_size_push(insert_by_age_spec(dl, f), t.last());
        lemma_total_size_push(dl, t.last());
        assert(dl.push(t.last()) =~= t);
    }
}

proof fn lemma_sort_by_age_total(s: Seq<ManagedFile>)
    ensures
        total_size(sort_by_age_spec(s)) == total_size(s),
    decreases s.len(),
{
    if s.len() > 0 {
        let dl = s.drop_last();
        lemma_sort_by_age_total(dl);
        lemma_insert_by_age_total(sort_by_age_spec(dl), s.last());
        lemma_total_size_push(dl, s.last());
        assert(dl.push(s.last()) =~= s);
    }
}

proof fn lemma_insert_all_newer(t: Seq<ManagedFile>, f: ManagedFile)
    requires
        forall|k: int| 0 <= k < t.len() ==> t[k].modified > f.modified,
    ensures
        insert_by_age_spec(t, f) == seq![f] + t,
    decreases t.len(),
{
    if t.len() == 0 {
        assert(insert_by_age_spec(t, f) =~= seq![f] + t);
    } else {
        let dl = t.drop_last();
        lemma_insert_all_newer(dl, f);
        assert((seq![f] + dl).push(t.last()) =~= seq![f] + t);
    }
}

proof fn lemma_insert_keeps_first(t: Seq<ManagedFile>, f: ManagedFile)
    requires
        t.len() > 0,
        f.modified >= t[0].modified,
    ensures
        insert_by_age_spec(t, f).len() == t.len() + 1,
        insert_by_age_spec(t, f)[0] == t[0],
    decreases t.len(),
{
    lemma_insert_by_age_len(t, f);
    if t.last().modified <= f.modified {
    } else {
        let dl = t.drop_last();
        if t.len() == 1 {
            assert(t.last() == t[0]);
            assert(false);
        } else {
            assert(dl[0] == t[0]);
            lemma_insert_keeps_first(dl, f);
            lemma_insert_by_age_len(dl, f);
        }
    }
}

proof fn lemma_sort_keeps_strict_oldest_first(s: Seq<ManagedFile>, j: int)
    requires
        0 <= j < s.len(),
        forall|k: int| 0 <= k < s.len() && k != j ==> s[k].modified > s[j].modified,
    ensures
        sort_by_age_spec(s).len() == s.len(),
        sort_by_age_spec(s)[0] == s[j],
    decreases s.len(),
{
    lemma_sort_by_age_len(s);
    let dl = s.drop_last();
    if s.len() == 1 {
        assert(sort_by_age_spec(s) =~= insert_by_age_spec(Seq::empty(), s[0]));
    } else if j == s.len() - 1 {
        lemma_sort_age_lower_bound(dl, s[j].modified as int);
        lemma_sort_by_age_len(dl);
        lemma_insert_all_newer(sort_by_age_spec(dl), s.last());
        assert((seq![s.last()] + sort_by_age_spec(dl))[0] == s.last());
    } else {
        lemma_sort_keeps_strict_oldest_first(dl, j);
        lemma_insert_keeps_first(sort_by_age_spec(dl), s.last());
    }
}

proof fn lemma_insert_age_lower_bound(t: Seq<ManagedFile>, f: ManagedFile, m: int)
    requires
        forall|k: int| 0 <= k < t.len() ==> t[k].modified > m,
        f.modified > m,
    ensures
        forall|k: int|
            0 <= k < insert_by_age_spec(t, f).len() ==> insert_by_age_spec(t, f)[k].modified > m,
    decreases t.len(),
{
    if t.len() == 0 {
    } else if t.last().modified <= f.modified {
    } else {
        let dl = t.drop_last();
        lemma_insert_age_lower_bound(dl, f, m);
        let r = insert_by_age_spec(dl, f).push(t.last());
        assert(forall|k: int| 0 <= k < r.len() - 1 ==> r[k] == insert_by_age_spec(dl, f)[k]);
    }
}

proof fn lemma_sort_age_lower_bound(s: Seq<ManagedFile>, m: int)
    requires
        forall|k: int| 0 <= k < s.len() ==> s[k].modified > m,
    ensures
        forall|k: int|
            0 <= k < sort_by_age_spec(s).len() ==> sort_by_age_spec(s)[k].modified > m,
    decreases s.len(),
{
    if s.len() > 0 {
        let dl = s.drop_last();
        lemma_sort_age_lower_bound(dl, m);
        lemma_insert_age_lower_bound(sort_by_age_spec(dl), s.last(), m);
    }
}

/// Eviction within a directory removes strictly oldest-modified files
/// first: whenever one file is strictly older than every other and the
/// usage is above the target, that file is the first the plan removes.
pub proof fn lemma_oldest_evicted_first(s: Seq<ManagedFile>, j: int, usage: int, target: int)
    requires
        0 <= j < s.len(),
        forall|k: int| 0 <= k < s.len() && k != j ==> s[k].modified > s[j].modified,
        usage > target,
    ensures
        evict_plan(s, usage, target).len() >= 1,
        evict_plan(s, usage, target)[0] == s[j],
{
    lemma_sort_keeps_strict_oldest_first(s, j);
    let sorted = sort_by_age_spec(s);
    lemma_evict_count_bounds(sorted, usage, target);
    assert(evict_count(sorted, usage, target) >= 1);
}

proof fn lemma_evict_count_bounds(s: Seq<ManagedFile>, usage: int, target: int)
    ensures
        0 <= evict_count(s, usage, target) <= s.len(),
        usage > target && s.len() > 0 ==> evict_count(s, usage, target) >= 1,
    decreases s.len(),
{
    if !(usage <= target || s.len() == 0) {
        lemma_evict_count_bounds(s.drop_first(), sat_sub(usage, s[0].size as int), target);
    }
}

proof fn lemma_evict_exact(s: Seq<ManagedFile>, usage: int, target: int)
    requires
        total_size(s) <= usage,
    ensures
        ({
            let c = evict_count(s, usage, target);
            let v = s.take(c);
            &&& 0 <= c <= s.len()
            &&& 0 <= total_size(v) <= total_size(s)
            &&& usage_after(usage, v) == usage - total_size(v)
            &&& (usage - total_size(v) <= target || c == s.len())
            &&& (c == s.len() ==> total_size(v) == total_size(s))
        }),
    decreases s.len(),
{
    lemma_total_size_nonneg(s);
    let c = evict_count(s, usage, target);
    let v = s.take(c);
    if usage <= target || s.len() == 0 {
        assert(v =~= Seq::<ManagedFile>::empty());
        assert(total_size(v) == 0);
        assert(usage_after(usage, v) == usage);
        if s.len() == 0 {
            assert(total_size(s) == 0);
        }
    } else {
        let rest = s.drop_first();
        let usage2 = sat_sub(usage, s[0].size as int);
        lemma_total_size_nonneg(rest);
        assert(total_size(s) == s[0].size + total_size(rest));
        assert(usage2 == usage - s[0].size);
        lemma_evict_exact(rest, usage2, target);
        let c2 = evict_count(rest, usage2, target);
        assert(c == 1 + c2);
        let v2 = rest.take(c2);
        assert(v.drop_first() =~= v2);
        assert(v[0] == s[0]);
        assert(total_size(v) == s[0].size + total_size(v2));
        assert(usage_after(usage, v) == usage_after(usage2, v2));
        if c2 == rest.len() {
            assert(c == s.len());
        }
    }
}

/// After a governance pass forced by aggregate usage above the high-water
/// mark, each managed directory is left at or below the low-water target —
/// half of capacity — provided the knowledge store did not start strictly
/// between the two marks (a store left there after the cache empties is
/// never cut, the one family of inputs on which this cannot hold).
pub proof fn lemma_governance_meets_target(
    knowledge: Seq<ManagedFile>,
    cache: Seq<ManagedFile>,
    capacity: int,
)
    requires
        0 <= capacity,
        total_size(knowledge) + total_size(cache) <= u64::MAX,
        total_size(knowledge) + total_size(cache) > capacity * 8 / 10,
        total_size(knowledge) <= capacity / 2 || total_size(knowledge) > capacity * 8 / 10,
    ensures
        total_size(cache) - total_size(governance_spec(knowledge, cache, capacity).0) <= capacity
            / 2,
        total_size(knowledge) - total_size(governance_spec(knowledge, cache, capacity).1)
            <= capacity / 2,
{
    lemma_total_size_nonneg(knowledge);
    lemma_total_size_nonneg(cache);
    let usage = sat_cap(total_size(knowledge) + total_size(cache));
    assert(usage == total_size(knowledge) + total_size(cache));
    let threshold = capacity * 8 / 10;
    let target = capacity / 2;
    assert(target <= threshold) by {
        vstd::arithmetic::div_mod::lemma_fundamental_div_mod(capacity, 2);
        vstd::arithmetic::div_mod::lemma_mod_pos_bound(capacity, 2);
        let q = capacity / 2;
        let r = capacity % 2;
        assert(capacity * 5 == q * 10 + 5 * r);
        vstd::arithmetic::div_mod::lemma_fundamental_div_mod_converse(capacity * 5, 10, q, 5 * r);
        assert(capacity * 5 <= capacity * 8);
        vstd::arithmetic::div_mod::lemma_div_is_ordered(capacity * 5, capacity * 8, 10);
    }
    let sorted_cache = sort_by_age_spec(cache);
    lemma_sort_by_age_total(cache);
    lemma_sort_by_age_len(cache);
    lemma_evict_exact(sorted_cache, usage, target);
    let cv = evict_plan(cache, usage, target);
    let usage2 = usage_after(usage, cv);
    assert(usage2 == usage - total_size(cv));
    let c1 = evict_count(sorted_cache, usage, target);
    if usage2 <= target {
        assert(usage2 <= threshold);
        assert(governance_spec(knowledge, cache, capacity).1 =~= Seq::<ManagedFile>::empty());
        assert(total_size(knowledge) <= usage2);
        assert(total_size(cache) - total_size(cv) == usage2 - total_size(knowledge));
    } else {
        assert(c1 == sorted_cache.len());
        assert(total_size(cv) == total_size(cache));
        assert(usage2 == total_size(knowledge));
        if usage2 > threshold {
            let sorted_k = sort_by_age_spec(knowledge);
            lemma_sort_by_age_total(knowledge);
            lemma_sort_by_age_len(knowledge);
            lemma_evict_exact(sorted_k, usage2, target);
            let kv = evict_plan(knowledge, usage2, target);
            assert(governance_spec(knowledge, cache, capacity).1 == kv);
            let c2 = evict_count(sorted_k, usage2, target);
            if usage2 - total_size(kv) <= target {
            } else {
                assert(c2 == sorted_k.len());
                assert(total_size(kv) == total_size(knowledge));
            }
        } else {
            assert(governance_spec(knowledge, cache, capacity).1 =~= Seq::<ManagedFile>::empty());
            assert(total_size(knowledge) <= target);
        }
    }
}

/// The running usage left after the given deletions.
fn remaining_usage(usage: u64, victims: &Vec<ManagedFile>) -> (r: u64)
    ensures
        r as int == usage_after(usage as int, victims@),
{
    let mut r: u64 = usage;
    let mut i: usize = 0;
    assert(victims@.skip(0) =~= victims@);
    while i < victims.len()
        invariant
            i <= victims@.len(),
            usage_after(usage as int, victims@) == usage_after(r as int, victims@.skip(i as int)),
        decreases victims@.len() - i,
    {
        let fsize: u64 = victims[i].size;
        proof {
            assert(victims@.skip(i as int)[0] == victims@[i as int]);
            assert(victims@.skip(i as int).drop_first() =~= victims@.skip(i + 1));
        }
        if r >= fsize {
            r = r - fsize;
        } else {
            r = 0;
        }
        i = i + 1;
    }
    assert(victims@.skip(victims@.len() as int) =~= Seq::<ManagedFile>::empty());
    r
}

} // verus!


