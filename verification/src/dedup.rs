//! Dedup-and-group: run every job of one fetch result through the seen-set's
//! check-and-insert, and group the ones that were new by location, keeping
//! fetch-response order inside each group.

use vstd::prelude::*;

use crate::model::{JobInfo, NotificationBatch};
use crate::seen_set::SeenSet;

verus! {

/// The set of ids occurring in a fetch result.
pub open spec fn ids_of(jobs: Seq<JobInfo>) -> Set<Seq<char>> {
    jobs.map_values(|j: JobInfo| j.id@).to_set()
}

/// Whether the job at index `i` is new: its id is neither already seen nor
/// duplicated earlier in the same fetch result.
pub open spec fn job_is_new(seen: Set<Seq<char>>, jobs: Seq<JobInfo>, i: int) -> bool {
    &&& !seen.contains(jobs[i].id@)
    &&& forall|k: int| 0 <= k < i ==> jobs[k].id@ != jobs[i].id@
}

/// The new jobs of a fetch result that belong to one location, in
/// fetch-response order.
pub open spec fn group_for(seen: Set<Seq<char>>, jobs: Seq<JobInfo>, loc: Seq<char>) -> Seq<JobInfo>
    decreases jobs.len(),
{
    if jobs.len() == 0 {
        Seq::empty()
    } else {
        let prefix = group_for(seen, jobs.drop_last(), loc);
        if job_is_new(seen, jobs, jobs.len() - 1) && jobs.last().location@ == loc {
            prefix.push(jobs.last())
        } else {
            prefix
        }
    }
}

/// The distinct locations of the new jobs of a fetch result, in order of first
/// appearance.
pub open spec fn batch_locations(seen: Set<Seq<char>>, jobs: Seq<JobInfo>) -> Seq<Seq<char>>
    decreases jobs.len(),
{
    if jobs.len() == 0 {
        Seq::empty()
    } else {
        let prefix = batch_locations(seen, jobs.drop_last());
        if job_is_new(seen, jobs, jobs.len() - 1) && !prefix.contains(jobs.last().location@) {
            prefix.push(jobs.last().location@)
        } else {
            prefix
        }
    }
}

/// Whether `batches` is exactly the grouping of the new jobs of `jobs`,
/// relative to the already-seen set `seen`: one batch per distinct location of
/// a new job, in first-appearance order, each holding that location's new jobs
/// in fetch-response order.
pub open spec fn batches_correct(
    seen: Set<Seq<char>>,
    jobs: Seq<JobInfo>,
    batches: Seq<NotificationBatch>,
) -> bool {
    &&& batches.len() == batch_locations(seen, jobs).len()
    &&& forall|b: int|
        0 <= b < batches.len() ==> (#[trigger] batches[b]).location@ == batch_locations(
            seen,
            jobs,
        )[b] && batches[b].jobs@ == group_for(seen, jobs, batch_locations(seen, jobs)[b])
}

/// Every job of a location's group carries exactly that location: a batch
/// built from `group_for` never mixes locations.
pub proof fn lemma_group_members(seen: Set<Seq<char>>, jobs: Seq<JobInfo>, loc: Seq<char>, k: int)
    requires
        0 <= k < group_for(seen, jobs, loc).len(),
    ensures
        group_for(seen, jobs, loc)[k].location@ == loc,
    decreases jobs.len(),
{
    if jobs.len() > 0 {
        let prefix = group_for(seen, jobs.drop_last(), loc);
        if k < prefix.len() {
            lemma_group_members(seen, jobs.drop_last(), loc, k);
        }
    }
}

/// A fetch result whose ids are all already seen produces no batches at all.
pub proof fn lemma_all_seen_no_batches(
    seen: Set<Seq<char>>,
    jobs: Seq<JobInfo>,
    batches: Seq<NotificationBatch>,
)
    requires
        batches_correct(seen, jobs, batches),
        forall|i: int| 0 <= i < jobs.len() ==> seen.contains(#[trigger] jobs[i].id@),
    ensures
        batches.len() == 0,
{
    lemma_all_seen_no_locations(seen, jobs);
}

proof fn lemma_all_seen_no_locations(seen: Set<Seq<char>>, jobs: Seq<JobInfo>)
    requires
        forall|i: int| 0 <= i < jobs.len() ==> seen.contains(#[trigger] jobs[i].id@),
    ensures
        batch_locations(seen, jobs).len() == 0,
    decreases jobs.len(),
{
    if jobs.len() > 0 {
        lemma_all_seen_no_locations(seen, jobs.drop_last());
        assert(!job_is_new(seen, jobs, jobs.len() - 1));
    }
}

fn find_batch(batches: &Vec<NotificationBatch>, loc: &String) -> (r: Option<usize>)
    ensures
        match r {
            Some(b) => b < batches@.len() && batches@[b as int].location@ == loc@,
            None => forall|b: int| 0 <= b < batches@.len() ==> batches@[b].location@ != loc@,
        },
{
    let mut b: usize = 0;
    while b < batches.len()
        invariant
            b <= batches@.len(),
            forall|k: int| 0 <= k < b ==> batches@[k].location@ != loc@,
        decreases batches@.len() - b,
    {
        if batches[b].location.eq(loc) {
            return Some(b);
        }
        b = b + 1;
    }
    None
}

/// Runs one fetch result through the dedup gate and groups the newly seen
/// jobs by location: every id of `jobs` ends up in the seen set, and the
/// returned batches are exactly the new jobs, one batch per distinct location
/// in first-appearance order, each in fetch-response order.
pub fn process_jobs(seen: &mut SeenSet, jobs: &Vec<JobInfo>) -> (batches: Vec<NotificationBatch>)
    requires
        old(seen).wf(),
    ensures
        final(seen).wf(),
        final(seen)@ == old(seen)@.union(ids_of(jobs@)),
        batches_correct(old(seen)@, jobs@, batches@),
{
    let ghost gs: Set<Seq<char>> = seen@;
    let mut batches: Vec<NotificationBatch> = Vec::new();
    let mut i: usize = 0;
    proof {
        assert(jobs@.subrange(0, 0) =~= Seq::<JobInfo>::empty());
        assert(seen@ =~= gs.union(ids_of(jobs@.subrange(0, 0))));
    }
    while i < jobs.len()
        invariant
            i <= jobs@.len(),
            seen.wf(),
            seen@ == gs.union(ids_of(jobs@.subrange(0, i as int))),
            batches_correct(gs, jobs@.subrange(0, i as int), batches@),
        decreases jobs@.len() - i,
    {
        let ghost prefix = jobs@.subrange(0, i as int);
        let ghost prefix2 = jobs@.subrange(0, i as int + 1);
        proof {
            assert(prefix2 =~= prefix.push(jobs@[i as int]));
        }
        let job = &jobs[i];
        let is_new = seen.insert_if_new(job.id.clone());
        proof {
            lemma_ids_of_push(prefix, *job);
            assert(seen@ =~= gs.union(ids_of(prefix2)));
            lemma_new_matches_union(gs, prefix, *job, is_new);
        }
        if is_new {
            let ghost prev = batches@;
            match find_batch(&batches, &job.location) {
                Some(b) => {
                    proof {
                        lemma_locations_complete(gs, prefix, batches@, b as int, job.location@);
                    }
                    append_to_batch(&mut batches, b, job.duplicate());
                    proof {
                        lemma_step_existing(gs, prefix, jobs@[i as int], prev, batches@, b as int);
                    }
                },
                None => {
                    proof {
                        lemma_locations_only(gs, prefix, batches@, job.location@);
                    }
                    let mut one = Vec::new();
                    one.push(job.duplicate());
                    batches.push(NotificationBatch { location: job.location.clone(), jobs: one });
                    proof {
                        lemma_step_fresh(gs, prefix, jobs@[i as int], prev, batches@);
                    }
                },
            }
        } else {
            proof {
                lemma_step_old(gs, prefix, jobs@[i as int], batches@);
            }
        }
        i = i + 1;
    }
    proof {
        assert(jobs@.subrange(0, jobs@.len() as int) =~= jobs@);
    }
    batches
}

fn append_to_batch(batches: &mut Vec<NotificationBatch>, b: usize, job: JobInfo)
    requires
        b < old(batches)@.len(),
    ensures
        final(batches)@.len() == old(batches)@.len(),
        forall|k: int|
            0 <= k < old(batches)@.len() && k != b ==> final(batches)@[k] == old(batches)@[k],
        final(batches)@[b as int].location == old(batches)@[b as int].location,
        final(batches)@[b as int].jobs@ == old(batches)@[b as int].jobs@.push(job),
{
    let mut taken = batches.remove(b);
    taken.jobs.push(job);
    batches.insert(b, taken);
}

proof fn lemma_ids_of_push(jobs: Seq<JobInfo>, j: JobInfo)
    ensures
        ids_of(jobs.push(j)) == ids_of(jobs).insert(j.id@),
{
    let a = ids_of(jobs.push(j));
    let m2 = jobs.push(j).map_values(|x: JobInfo| x.id@);
    let m1 = jobs.map_values(|x: JobInfo| x.id@);
    assert(m2 =~= m1.push(j.id@));
    assert forall|s: Seq<char>| a.contains(s) implies ids_of(jobs).insert(j.id@).contains(s) by {
        let k = choose|k: int| 0 <= k < m2.len() && m2[k] == s;
        if k < m1.len() {
            assert(m1.contains(s));
        }
    }
    assert forall|s: Seq<char>| ids_of(jobs).insert(j.id@).contains(s) implies a.contains(s) by {
        if s == j.id@ {
            assert(m2[m2.len() - 1] == s);
        } else {
            let k = choose|k: int| 0 <= k < m1.len() && m1[k] == s;
            assert(m2[k] == s);
        }
        assert(m2.contains(s));
    }
    assert(a =~= ids_of(jobs).insert(j.id@));
}

/// The runtime novelty test against the accumulated seen set agrees with the
/// spec-level one against the starting set and the fetch prefix.
proof fn lemma_new_matches_union(gs: Set<Seq<char>>, prefix: Seq<JobInfo>, j: JobInfo, r: bool)
    requires
        r == !gs.union(ids_of(prefix)).contains(j.id@),
    ensures
        r == job_is_new(gs, prefix.push(j), prefix.len() as int),
{
    let m1 = prefix.map_values(|x: JobInfo| x.id@);
    let full = prefix.push(j);
    if r {
        assert forall|k: int| 0 <= k < prefix.len() implies full[k].id@ != j.id@ by {
            assert(m1[k] == prefix[k].id@);
            assert(m1.contains(prefix[k].id@));
        }
    } else {
        if !gs.contains(j.id@) {
            assert(ids_of(prefix).contains(j.id@));
            let k = choose|k: int| 0 <= k < m1.len() && m1[k] == j.id@;
            assert(full[k].id@ == j.id@);
        }
    }
}

/// If a batch at index `b` carries the location, the spec's location list
/// contains it.
proof fn lemma_locations_complete(
    gs: Set<Seq<char>>,
    prefix: Seq<JobInfo>,
    batches: Seq<NotificationBatch>,
    b: int,
    loc: Seq<char>,
)
    requires
        batches_correct(gs, prefix, batches),
        0 <= b < batches.len(),
        batches[b].location@ == loc,
    ensures
        batch_locations(gs, prefix).contains(loc),
        batch_locations(gs, prefix)[b] == loc,
{
    assert(batches[b].location@ == batch_locations(gs, prefix)[b]);
}

/// If no batch carries the location, the spec's location list does not
/// contain it either.
proof fn lemma_locations_only(
    gs: Set<Seq<char>>,
    prefix: Seq<JobInfo>,
    batches: Seq<NotificationBatch>,
    loc: Seq<char>,
)
    requires
        batches_correct(gs, prefix, batches),
        forall|b: int| 0 <= b < batches.len() ==> batches[b].location@ != loc,
    ensures
        !batch_locations(gs, prefix).contains(loc),
{
    let locs = batch_locations(gs, prefix);
    if locs.contains(loc) {
        let b = choose|b: int| 0 <= b < locs.len() && locs[b] == loc;
        assert(batches[b].location@ == locs[b]);
    }
}

/// Appending a new job whose location already has a batch extends exactly
/// that batch.
proof fn lemma_step_existing(
    gs: Set<Seq<char>>,
    prefix: Seq<JobInfo>,
    j: JobInfo,
    old_b: Seq<NotificationBatch>,
    new_batches: Seq<NotificationBatch>,
    b: int,
)
    requires
        job_is_new(gs, prefix.push(j), prefix.len() as int),
        batch_locations(gs, prefix).contains(j.location@),
        batch_locations(gs, prefix)[b] == j.location@,
        batches_correct(gs, prefix, old_b),
        new_batches.len() == old_b.len(),
        0 <= b < old_b.len(),
        forall|k: int| 0 <= k < old_b.len() && k != b ==> new_batches[k] == old_b[k],
        new_batches[b].location == old_b[b].location,
        new_batches[b].jobs@ == old_b[b].jobs@.push(j),
    ensures
        batches_correct(gs, prefix.push(j), new_batches),
{
    let full = prefix.push(j);
    assert(full.drop_last() =~= prefix);
    let locs = batch_locations(gs, full);
    assert(locs == batch_locations(gs, prefix));
    assert forall|k: int| 0 <= k < new_batches.len() implies #[trigger] new_batches[k].location@
        == locs[k] && new_batches[k].jobs@ == group_for(gs, full, locs[k]) by {
        assert(old_b[k].location@ == locs[k]);
        if k == b {
            assert(group_for(gs, full, locs[k]) == group_for(gs, prefix, locs[k]).push(j));
        } else {
            assert(locs[k] != j.location@) by {
                if locs[k] == j.location@ {
                    lemma_batch_locations_distinct(gs, prefix, k, b);
                }
            }
            assert(group_for(gs, full, locs[k]) == group_for(gs, prefix, locs[k]));
        }
    }
}

/// The spec's location list never repeats a location.
proof fn lemma_batch_locations_distinct(gs: Set<Seq<char>>, jobs: Seq<JobInfo>, i: int, j: int)
    requires
        0 <= i < batch_locations(gs, jobs).len(),
        0 <= j < batch_locations(gs, jobs).len(),
        i != j,
    ensures
        batch_locations(gs, jobs)[i] != batch_locations(gs, jobs)[j],
    decreases jobs.len(),
{
    if jobs.len() > 0 {
        let prefix = batch_locations(gs, jobs.drop_last());
        let locs = batch_locations(gs, jobs);
        if locs.len() == prefix.len() {
            lemma_batch_locations_distinct(gs, jobs.drop_last(), i, j);
        } else {
            if i < prefix.len() && j < prefix.len() {
                lemma_batch_locations_distinct(gs, jobs.drop_last(), i, j);
            } else if i < prefix.len() {
                assert(prefix.contains(prefix[i]));
            } else {
                assert(prefix.contains(prefix[j]));
            }
        }
    }
}

/// Appending a new job in a location without a batch appends one fresh batch.
proof fn lemma_step_fresh(
    gs: Set<Seq<char>>,
    prefix: Seq<JobInfo>,
    j: JobInfo,
    old_b: Seq<NotificationBatch>,
    new_batches: Seq<NotificationBatch>,
)
    requires
        job_is_new(gs, prefix.push(j), prefix.len() as int),
        !batch_locations(gs, prefix).contains(j.location@),
        batches_correct(gs, prefix, old_b),
        new_batches.len() == old_b.len() + 1,
        forall|k: int| 0 <= k < old_b.len() ==> new_batches[k] == old_b[k],
        new_batches.last().location@ == j.location@,
        new_batches.last().jobs@ == Seq::<JobInfo>::empty().push(j),
    ensures
        batches_correct(gs, prefix.push(j), new_batches),
{
    let full = prefix.push(j);
    assert(full.drop_last() =~= prefix);
    let locs = batch_locations(gs, full);
    assert(locs == batch_locations(gs, prefix).push(j.location@));
    assert forall|k: int| 0 <= k < new_batches.len() implies #[trigger] new_batches[k].location@
        == locs[k] && new_batches[k].jobs@ == group_for(gs, full, locs[k]) by {
        if k < new_batches.len() - 1 {
            assert(old_b[k].location@ == batch_locations(gs, prefix)[k]);
            assert(locs[k] != j.location@) by {
                assert(batch_locations(gs, prefix).contains(batch_locations(gs, prefix)[k]));
            }
            assert(group_for(gs, full, locs[k]) == group_for(gs, prefix, locs[k]));
        } else {
            assert(locs[k] == j.location@);
            assert(group_for(gs, full, j.location@) == group_for(gs, prefix, j.location@).push(j));
            lemma_group_for_absent(gs, prefix, j.location@);
            assert(new_batches[k].jobs@ =~= group_for(gs, full, locs[k]));
        }
    }
}

/// A location missing from the spec's location list has no new jobs.
proof fn lemma_group_for_absent(gs: Set<Seq<char>>, jobs: Seq<JobInfo>, loc: Seq<char>)
    requires
        !batch_locations(gs, jobs).contains(loc),
    ensures
        group_for(gs, jobs, loc) == Seq::<JobInfo>::empty(),
    decreases jobs.len(),
{
    if jobs.len() > 0 {
        let prefix_locs = batch_locations(gs, jobs.drop_last());
        assert forall|x: Seq<char>| prefix_locs.contains(x) implies batch_locations(
            gs,
            jobs,
        ).contains(x) by {
            let k = choose|k: int| 0 <= k < prefix_locs.len() && prefix_locs[k] == x;
            assert(batch_locations(gs, jobs)[k] == x);
        }
        lemma_group_for_absent(gs, jobs.drop_last(), loc);
        if job_is_new(gs, jobs, jobs.len() - 1) && jobs.last().location@ == loc {
            if prefix_locs.contains(loc) {
            } else {
                assert(batch_locations(gs, jobs).last() == loc);
            }
        }
    }
}

/// A job that is not new changes neither the location list nor any group.
proof fn lemma_step_old(
    gs: Set<Seq<char>>,
    prefix: Seq<JobInfo>,
    j: JobInfo,
    batches: Seq<NotificationBatch>,
)
    requires
        !job_is_new(gs, prefix.push(j), prefix.len() as int),
        batches_correct(gs, prefix, batches),
    ensures
        batches_correct(gs, prefix.push(j), batches),
{
    let full = prefix.push(j);
    assert(full.drop_last() =~= prefix);
    assert(batch_locations(gs, full) == batch_locations(gs, prefix));
    assert forall|b: int| 0 <= b < batches.len() implies #[trigger] batches[b].location@
        == batch_locations(gs, full)[b] && batches[b].jobs@ == group_for(
        gs,
        full,
        batch_locations(gs, full)[b],
    ) by {
        assert(group_for(gs, full, batch_locations(gs, prefix)[b]) == group_for(
            gs,
            prefix,
            batch_locations(gs, prefix)[b],
        ));
    }
}

} // verus!
