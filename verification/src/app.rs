//! The pipeline's runtime: values, contexts, captures, assertions,
//! operations, jobs and the scheduling of groups.

use std::sync::Arc;
use vstd::prelude::*;
use crate::app::context::{file_models, lemma_distinct_stay, named_once, with_items, ContextPool};
use crate::app::executor::{JobGroup, RunInfo};
use crate::app::job::{HttpJob, SendMessage};
use crate::text::same_text;
use crate::configuration::manifest::{
    distinct_groups, distinct_resources, JobType, Manifest, PipelineEntry, Resource, ResourceType,
};

pub mod assertion;
pub mod capture;
pub mod context;
pub mod error;
pub mod executor;
pub mod job;
pub mod json;
pub mod operation;
pub mod scheduler;
pub mod value;

verus! {

/// A pipeline that is ready to run: its name, the groups that were
/// selected, each with its jobs, and the pool of variables.
pub struct App<T: SendMessage> {
    name: String,
    job_groups: Vec<JobGroup<HttpJob<T>>>,
    context: ContextPool,
}

/// The first place at or behind `from` where a group bears the name
/// `name`, or the number of groups where none does.
pub open spec fn group_place(groups: Seq<(String, Vec<PipelineEntry>)>, name: Seq<char>, from: int) -> int
    decreases groups.len() - from,
{
    if from >= groups.len() {
        groups.len() as int
    } else if groups[from].0@ == name {
        from
    } else {
        group_place(groups, name, from + 1)
    }
}

/// The groups after one more was named: it takes the place of the group
/// of its name; where there is none, it stands last.
pub open spec fn with_group(groups: Seq<(String, Vec<PipelineEntry>)>, group: (String, Vec<PipelineEntry>)) -> Seq<
    (String, Vec<PipelineEntry>),
> {
    let at = group_place(groups, group.0@, 0);
    if at < groups.len() {
        groups.update(at, group)
    } else {
        groups.push(group)
    }
}

/// The groups of a manifest, one for each name: a later group of a name
/// stands in the place of an earlier one.
pub open spec fn one_per_name(groups: Seq<(String, Vec<PipelineEntry>)>) -> Seq<(String, Vec<PipelineEntry>)>
    decreases groups.len(),
{
    if groups.len() == 0 {
        Seq::empty()
    } else {
        with_group(one_per_name(groups.drop_last()), groups.last())
    }
}

/// Where no group from `from` on bears a name, the name has no place.
pub proof fn lemma_no_group(groups: Seq<(String, Vec<PipelineEntry>)>, name: Seq<char>, from: int)
    requires
        0 <= from,
        forall|k: int| from <= k < groups.len() ==> (#[trigger] groups[k]).0@ != name,
    ensures
        group_place(groups, name, from) == groups.len(),
    decreases groups.len() - from,
{
    if from < groups.len() {
        lemma_no_group(groups, name, from + 1);
    }
}

/// The place of a name is where the first group of that name stands.
pub proof fn lemma_group_place(groups: Seq<(String, Vec<PipelineEntry>)>, name: Seq<char>, from: int, at: int)
    requires
        0 <= from <= at < groups.len(),
        groups[at].0@ == name,
        forall|k: int| from <= k < at ==> (#[trigger] groups[k]).0@ != name,
    ensures
        group_place(groups, name, from) == at,
    decreases at - from,
{
    if from < at {
        assert(groups[from].0@ != name);
        lemma_group_place(groups, name, from + 1, at);
    }
}

/// Whatever groups a manifest names, no two of those that stand one for
/// each name share a name.
pub proof fn lemma_one_per_name(groups: Seq<(String, Vec<PipelineEntry>)>)
    ensures
        distinct_groups(one_per_name(groups)),
    decreases groups.len(),
{
    if groups.len() > 0 {
        lemma_one_per_name(groups.drop_last());
        let before = one_per_name(groups.drop_last());
        let after = one_per_name(groups);
        let name = groups.last().0@;
        let at = group_place(before, name, 0);
        assert forall|i: int, j: int| 0 <= i < j < after.len() implies (#[trigger] after[i]).0@ != (
        #[trigger] after[j]).0@ by {
            if at < before.len() {
                lemma_group_is_there(before, name, 0);
                assert(after[i].0@ == before[i].0@ && after[j].0@ == before[j].0@);
            } else if j < before.len() {
                assert(after[i] == before[i] && after[j] == before[j]);
            } else {
                lemma_group_is_there(before, name, 0);
                assert(after[i] == before[i]);
            }
        }
    }
}

/// Each of the groups that stand one for each name is a group of the
/// manifest.
pub proof fn lemma_one_per_name_is_given(groups: Seq<(String, Vec<PipelineEntry>)>)
    ensures
        forall|i: int| 0 <= i < one_per_name(groups).len() ==> groups.contains(#[trigger] one_per_name(groups)[i]),
    decreases groups.len(),
{
    if groups.len() > 0 {
        let front = groups.drop_last();
        lemma_one_per_name_is_given(front);
        let before = one_per_name(front);
        let after = one_per_name(groups);
        let at = group_place(before, groups.last().0@, 0);
        lemma_group_is_there(before, groups.last().0@, 0);
        assert forall|i: int| 0 <= i < after.len() implies groups.contains(#[trigger] after[i]) by {
            if (at < before.len() && i == at) || (at == before.len() && i == before.len()) {
                assert(after[i] == groups[groups.len() - 1]);
            } else {
                assert(after[i] == before[i]);
                assert(front.contains(before[i]));
                let k = choose|k: int| 0 <= k < front.len() && front[k] == before[i];
                assert(groups[k] == after[i]);
            }
        }
    }
}

/// The group at the place of a name bears it, and no group between `from`
/// and that place does.
pub proof fn lemma_group_is_there(groups: Seq<(String, Vec<PipelineEntry>)>, name: Seq<char>, from: int)
    requires
        0 <= from,
    ensures
        group_place(groups, name, from) < groups.len() ==> groups[group_place(groups, name, from)].0@ == name,
        forall|k: int|
            from <= k < group_place(groups, name, from) && k < groups.len() ==> (#[trigger] groups[k]).0@ != name,
        from <= groups.len() ==> from <= group_place(groups, name, from) <= groups.len(),
    decreases groups.len() - from,
{
    if from < groups.len() && groups[from].0@ != name {
        lemma_group_is_there(groups, name, from + 1);
    }
}

/// Groups of which no two share a name stand as they are, one for each
/// name.
pub proof fn lemma_distinct_groups_stay(groups: Seq<(String, Vec<PipelineEntry>)>)
    requires
        distinct_groups(groups),
    ensures
        one_per_name(groups) == groups,
    decreases groups.len(),
{
    if groups.len() > 0 {
        let front = groups.drop_last();
        assert(distinct_groups(front)) by {
            assert forall|i: int, j: int| 0 <= i < j < front.len() implies (#[trigger] front[i]).0@ != (
            #[trigger] front[j]).0@ by {
                assert(front[i] == groups[i] && front[j] == groups[j]);
            }
        }
        lemma_distinct_groups_stay(front);
        assert forall|k: int| 0 <= k < front.len() implies (#[trigger] front[k]).0@ != groups.last().0@ by {
            assert(front[k] == groups[k]);
            assert(groups[k].0@ != groups[groups.len() - 1].0@);
        }
        lemma_no_group(front, groups.last().0@, 0);
        assert(front.push(groups.last()) =~= groups);
    } else {
        assert(groups =~= Seq::empty());
    }
}

/// The groups of a manifest, one for each name.
fn single_groups(groups: Vec<(String, Vec<PipelineEntry>)>) -> (r: Vec<(String, Vec<PipelineEntry>)>)
    ensures
        r@ == one_per_name(groups@),
{
    let ghost all = groups@;
    let mut pending = reversed(groups);
    let mut out: Vec<(String, Vec<PipelineEntry>)> = Vec::new();
    let ghost mut seen: int = 0;
    assert(all.take(0) =~= Seq::empty());
    assert(out@ =~= one_per_name(all.take(0)));
    while pending.len() > 0
        invariant
            0 <= seen <= all.len(),
            pending@.len() == all.len() - seen,
            forall|k: int| 0 <= k < pending@.len() ==> pending@[k] == all[all.len() - 1 - k],
            out@ == one_per_name(all.take(seen)),
        decreases pending@.len(),
    {
        proof {
            assert(all.take(seen + 1).drop_last() =~= all.take(seen));
            assert(all.take(seen + 1).last() == all[seen]);
        }
        match pending.pop() {
            Some(group) => {
                assert(group == all[seen]);
                let ghost before = out@;
                let mut i: usize = 0;
                while i < out.len() && !same_text(out[i].0.as_str(), group.0.as_str())
                    invariant
                        i <= out.len(),
                        out@ == before,
                        forall|k: int| 0 <= k < i ==> (#[trigger] before[k]).0@ != group.0@,
                    decreases out.len() - i,
                {
                    i += 1;
                }
                if i < out.len() {
                    proof {
                        lemma_group_place(before, group.0@, 0, i as int);
                    }
                    out.set(i, group);
                    assert(out@ =~= before.update(i as int, group));
                } else {
                    proof {
                        lemma_no_group(before, group.0@, 0);
                    }
                    out.push(group);
                    assert(out@ =~= before.push(group));
                }
                proof {
                    seen = seen + 1;
                }
            },
            None => {},
        }
    }
    assert(all.take(all.len() as int) =~= all);
    out
}

/// Whether a group of a name runs: every group where none is asked for by
/// name, and else the groups that are.
pub open spec fn is_selected(only: Seq<String>, name: Seq<char>) -> bool {
    only.len() == 0 || exists|i: int| 0 <= i < only.len() && (#[trigger] only[i])@ == name
}

/// The groups that run, in the order of the manifest.
pub open spec fn kept(groups: Seq<(String, Vec<PipelineEntry>)>, only: Seq<String>) -> Seq<
    (String, Vec<PipelineEntry>),
>
    decreases groups.len(),
{
    if groups.len() == 0 {
        Seq::empty()
    } else if is_selected(only, groups.last().0@) {
        kept(groups.drop_last(), only).push(groups.last())
    } else {
        kept(groups.drop_last(), only)
    }
}

/// The name and path of each resource of a manifest.
pub open spec fn resource_files(resources: Seq<Resource>) -> Seq<(Seq<char>, Seq<char>)> {
    Seq::new(
        resources.len(),
        |i: int|
            (
                resources[i].name@,
                match resources[i].kind {
                    ResourceType::File(path) => path@,
                },
            ),
    )
}

/// Whether a job was made of an entry of the manifest: it bears the entry's
/// name, repeats, delay, captures, operations and assertions, its request
/// is the entry's, a later header of a name in place of an earlier one, and
/// it sends through `client`.
pub open spec fn made_of<T: SendMessage>(
    job: (HttpJob<T>, RunInfo),
    entry: PipelineEntry,
    client: Arc<T>,
) -> bool {
    &&& job.0.client() == client
    &&& job.1.name == entry.name
    &&& job.1.repeats == entry.repeats
    &&& job.1.delay == entry.delay
    &&& job.1.captures == entry.capture
    &&& job.1.operations == entry.on
    &&& job.1.assertions == entry.assertions
    &&& entry.job_type matches JobType::Http { request, method, body, headers }
    &&& job.0.request() == request@
    &&& job.0.method() == method@
    &&& file_models(job.0.headers()) == with_items(Seq::empty(), file_models(headers@))
    &&& job.0.body() == (match body {
        Some(bytes) => Some(bytes@),
        None => None,
    })
}

/// Whether none of the jobs from the place `from` on bears the id `id`.
pub open spec fn unused_from<T: SendMessage>(jobs: Seq<(HttpJob<T>, RunInfo)>, from: int, id: u128) -> bool {
    forall|k: int| from <= k < jobs.len() ==> (#[trigger] jobs[k]).1.id != id
}

/// Whether no job after the job `j` of the group `i` bears the id `id`.
pub open spec fn unused_after<T: SendMessage>(groups: Seq<JobGroup<HttpJob<T>>>, i: int, j: int, id: u128) -> bool {
    &&& unused_from(groups[i].jobs(), j + 1, id)
    &&& forall|later: int| i < later < groups.len() ==> unused_from((#[trigger] groups[later]).jobs(), 0, id)
}

/// Where no two groups share a name, no two of the groups that run do.
pub proof fn lemma_kept_are_distinct(groups: Seq<(String, Vec<PipelineEntry>)>, only: Seq<String>)
    requires
        distinct_groups(groups),
    ensures
        distinct_groups(kept(groups, only)),
    decreases groups.len(),
{
    if groups.len() > 0 {
        let front = groups.drop_last();
        assert(distinct_groups(front)) by {
            assert forall|i: int, j: int| 0 <= i < j < front.len() implies (#[trigger] front[i]).0@ != (
            #[trigger] front[j]).0@ by {
                assert(front[i] == groups[i] && front[j] == groups[j]);
            }
        }
        lemma_kept_are_distinct(front, only);
        lemma_kept_are_selected(front, only);
        let before = kept(front, only);
        let after = kept(groups, only);
        assert forall|i: int, j: int| 0 <= i < j < after.len() implies (#[trigger] after[i]).0@ != (
        #[trigger] after[j]).0@ by {
            if j < before.len() {
                assert(after[i] == before[i] && after[j] == before[j]);
            } else {
                assert(after[i] == before[i]);
                assert(after[j] == groups.last());
                assert(front.contains(before[i]));
                let k = choose|k: int| 0 <= k < front.len() && front[k] == before[i];
                assert(groups[k] == before[i]);
                assert(groups[k].0@ != groups[groups.len() - 1].0@);
            }
        }
    }
}

/// Every group that is kept is selected, and stood in the manifest.
pub proof fn lemma_kept_are_selected(groups: Seq<(String, Vec<PipelineEntry>)>, only: Seq<String>)
    ensures
        forall|i: int|
            0 <= i < kept(groups, only).len() ==> is_selected(only, (#[trigger] kept(groups, only)[i]).0@)
                && groups.contains(kept(groups, only)[i]),
        kept(groups, only).len() <= groups.len(),
    decreases groups.len(),
{
    if groups.len() > 0 {
        let front = groups.drop_last();
        lemma_kept_are_selected(front, only);
        assert forall|i: int| 0 <= i < kept(groups, only).len() implies is_selected(
            only,
            (#[trigger] kept(groups, only)[i]).0@,
        ) && groups.contains(kept(groups, only)[i]) by {
            if i < kept(front, only).len() {
                let k = choose|k: int| 0 <= k < front.len() && front[k] == kept(front, only)[i];
                assert(groups[k] == kept(groups, only)[i]);
            } else {
                assert(groups[groups.len() - 1] == kept(groups, only)[i]);
            }
        }
    }
}

/// Every group of the manifest that is selected is kept.
pub proof fn lemma_selected_are_kept(groups: Seq<(String, Vec<PipelineEntry>)>, only: Seq<String>, i: int)
    requires
        0 <= i < groups.len(),
        is_selected(only, groups[i].0@),
    ensures
        kept(groups, only).contains(groups[i]),
    decreases groups.len(),
{
    let front = groups.drop_last();
    if i == groups.len() - 1 {
        assert(kept(groups, only).last() == groups[i]);
    } else {
        lemma_selected_are_kept(front, only, i);
        let k = choose|k: int| 0 <= k < kept(front, only).len() && kept(front, only)[k] == front[i];
        assert(kept(groups, only)[k] == groups[i]);
    }
}

/// The items of a vector in reverse order.
pub fn reversed<V>(items: Vec<V>) -> (r: Vec<V>)
    ensures
        r@ == items@.reverse(),
{
    let ghost all = items@;
    let mut rest = items;
    let mut out: Vec<V> = Vec::new();
    while rest.len() > 0
        invariant
            rest@.len() + out@.len() == all.len(),
            forall|i: int| 0 <= i < rest@.len() ==> rest@[i] == all[i],
            forall|i: int| 0 <= i < out@.len() ==> out@[i] == all[all.len() - 1 - i],
        decreases rest@.len(),
    {
        match rest.pop() {
            Some(item) => {
                out.push(item);
            },
            None => {},
        }
    }
    assert(out@ =~= all.reverse());
    out
}

/// Whether `name` is among `only`.
fn named(only: &Vec<String>, name: &String) -> (r: bool)
    ensures
        r == (exists|i: int| 0 <= i < only@.len() && (#[trigger] only@[i])@ == name@),
{
    let mut i: usize = 0;
    while i < only.len()
        invariant
            i <= only.len(),
            forall|j: int| 0 <= j < i ==> (#[trigger] only@[j])@ != name@,
        decreases only.len() - i,
    {
        if only[i] == *name {
            return true;
        }
        i += 1;
    }
    false
}

impl<T: SendMessage> App<T> {
    /// No two groups bear one name.
    #[verifier::type_invariant]
    spec fn distinct(self) -> bool {
        forall|i: int, j: int|
            0 <= i < j < self.job_groups@.len() ==> (#[trigger] self.job_groups@[i]).label() != (
            #[trigger] self.job_groups@[j]).label()
    }

    /// The name of the pipeline.
    pub closed spec fn label(&self) -> Seq<char> {
        self.name@
    }

    /// The groups that run, in order.
    pub closed spec fn groups(&self) -> Seq<JobGroup<HttpJob<T>>> {
        self.job_groups@
    }

    /// The pool of variables.
    pub closed spec fn pool(&self) -> ContextPool {
        self.context
    }

    /// Makes a pipeline ready to run.
    ///
    /// Of the groups of the manifest there is one for each name, a later
    /// one of a name in place of an earlier one. Those that are selected by
    /// `only` are kept, in order, each with a job for every entry; every job
    /// is given a fresh id, under which the pool keeps the entry's
    /// variables, unless a later job was given the same id. No two groups
    /// bear one name. Every job sends through `client`. The
    /// pool's globals are the manifest's variables and its resources the
    /// manifest's, a later one of a name in place of an earlier one.
    pub fn new(manifest: Manifest, only: Vec<String>, client: Arc<T>) -> (r: App<T>)
        ensures
            r.label() == manifest.name@,
            forall|i: int, j: int|
                #![trigger r.groups()[i].jobs()[j]]
                0 <= i < r.groups().len() && 0 <= j < r.groups()[i].jobs().len() && unused_after(
                    r.groups(),
                    i,
                    j,
                    r.groups()[i].jobs()[j].1.id,
                ) ==> r.pool().scoped(r.groups()[i].jobs()[j].1.id) == kept(
                    one_per_name(manifest.pipeline.groups@),
                    only@,
                )[i].1@[j].vars@,
            r.pool().standard(),
            r.pool().globals() == manifest.vars@,
            r.pool().resources() == with_items(Seq::empty(), resource_files(manifest.resources@)),
            distinct_resources(manifest.resources@) ==> r.pool().resources() == resource_files(
                manifest.resources@,
            ),
            r.groups().len() == kept(one_per_name(manifest.pipeline.groups@), only@).len(),
            forall|i: int, j: int|
                0 <= i < j < r.groups().len() ==> (#[trigger] r.groups()[i]).label() != (
                #[trigger] r.groups()[j]).label(),
            forall|i: int|
                #![trigger r.groups()[i]]
                0 <= i < r.groups().len() ==> {
                    let group = r.groups()[i];
                    let source = kept(one_per_name(manifest.pipeline.groups@), only@)[i];
                    &&& group.label() == source.0@
                    &&& is_selected(only@, group.label())
                    &&& group.jobs().len() == source.1@.len()
                    &&& forall|j: int|
                        0 <= j < group.jobs().len() ==> made_of(#[trigger] group.jobs()[j], source.1@[j], client)
                },
    {
        let Manifest { name, collect: _, pipeline, vars, resources } = manifest;
        let single = single_groups(pipeline.groups);
        let ghost all = single@;
        proof {
            lemma_one_per_name(pipeline.groups@);
            lemma_kept_are_distinct(all, only@);
        }
        let mut context = ContextPool::with_vars(vars);
        let mut groups: Vec<JobGroup<HttpJob<T>>> = Vec::new();
        let mut pending = reversed(single);
        let ghost mut seen: int = 0;
        assert(all.take(0) =~= Seq::empty());
        while pending.len() > 0
            invariant
                0 <= seen <= all.len(),
                pending@.len() == all.len() - seen,
                forall|k: int| 0 <= k < pending@.len() ==> pending@[k] == all[all.len() - 1 - k],
                context.standard(),
                context.globals() == vars@,
                context.resources() == Seq::<(Seq<char>, Seq<char>)>::empty(),
                groups@.len() == kept(all.take(seen), only@).len(),
                forall|i: int, j: int|
                    #![trigger groups@[i].jobs()[j]]
                    0 <= i < groups@.len() && 0 <= j < groups@[i].jobs().len() && unused_after(
                        groups@,
                        i,
                        j,
                        groups@[i].jobs()[j].1.id,
                    ) ==> context.scoped(groups@[i].jobs()[j].1.id) == kept(all.take(seen), only@)[i].1@[j].vars@,
                forall|i: int|
                    #![trigger groups@[i]]
                    0 <= i < groups@.len() ==> {
                        let group = groups@[i];
                        let source = kept(all.take(seen), only@)[i];
                        &&& group.label() == source.0@
                        &&& is_selected(only@, group.label())
                        &&& group.jobs().len() == source.1@.len()
                        &&& forall|j: int|
                            0 <= j < group.jobs().len() ==> made_of(
                                #[trigger] group.jobs()[j],
                                source.1@[j],
                                client,
                            )
                    },
            decreases pending@.len(),
        {
            let ghost before = kept(all.take(seen), only@);
            let ghost old_groups = groups@;
            proof {
                assert(all.take(seen + 1).drop_last() =~= all.take(seen));
                assert(all.take(seen + 1).last() == all[seen]);
            }
            match pending.pop() {
                Some((group_name, job_list)) => {
                    assert((group_name, job_list) == all[seen]);
                    if only.len() == 0 || named(&only, &group_name) {
                        let ghost pool_before = context;
                        let jobs = build_jobs(job_list, &mut context, &client);
                        groups.push(JobGroup::new(group_name, jobs));
                        proof {
                            assert(kept(all.take(seen + 1), only@) == before.push(all[seen]));
                            let n = old_groups.len() as int;
                            assert forall|i: int, j: int|
                                #![trigger groups@[i].jobs()[j]]
                                0 <= i < groups@.len() && 0 <= j < groups@[i].jobs().len() && unused_after(
                                    groups@,
                                    i,
                                    j,
                                    groups@[i].jobs()[j].1.id,
                                ) implies context.scoped(groups@[i].jobs()[j].1.id) == kept(
                                all.take(seen + 1),
                                only@,
                            )[i].1@[j].vars@ by {
                                let id = groups@[i].jobs()[j].1.id;
                                if i < n {
                                    assert(groups@[i] == old_groups[i]);
                                    assert(unused_from(groups@[n].jobs(), 0, id));
                                    assert(unused_after(old_groups, i, j, id)) by {
                                        assert forall|later: int| i < later < old_groups.len() implies unused_from(
                                            (#[trigger] old_groups[later]).jobs(),
                                            0,
                                            id,
                                        ) by {
                                            assert(groups@[later] == old_groups[later]);
                                        }
                                    }
                                    assert(old_groups[i].jobs()[j].1.id == id);
                                    assert(pool_before.scoped(id) == before[i].1@[j].vars@);
                                } else {
                                    assert(unused_from(groups@[n].jobs(), j + 1, id));
                                }
                            }
                            assert forall|i: int| #![trigger groups@[i]] 0 <= i < groups@.len() implies {
                                let group = groups@[i];
                                let source = kept(all.take(seen + 1), only@)[i];
                                &&& group.label() == source.0@
                                &&& is_selected(only@, group.label())
                                &&& group.jobs().len() == source.1@.len()
                                &&& forall|j: int|
                                    0 <= j < group.jobs().len() ==> made_of(
                                        #[trigger] group.jobs()[j],
                                        source.1@[j],
                                        client,
                                    )
                            } by {
                                if i < old_groups.len() {
                                    assert(groups@[i] == old_groups[i]);
                                }
                            }
                        }
                    } else {
                        assert(kept(all.take(seen + 1), only@) == before);
                    }
                },
                None => {},
            }
            proof {
                seen = seen + 1;
            }
        }
        assert(all.take(all.len() as int) =~= all);
        let ghost files = resource_files(resources@);
        let ghost ready = context;
        let mut i: usize = 0;
        assert(files.take(0) =~= Seq::empty());
        while i < resources.len()
            invariant
                i <= resources.len(),
                files == resource_files(resources@),
                context.standard(),
                context.globals() == vars@,
                forall|id: u128| context.scoped(id) == ready.scoped(id),
                context.resources() == with_items(Seq::empty(), files.take(i as int)),
            decreases resources.len() - i,
        {
            let path = match &resources[i].kind {
                ResourceType::File(path) => path.clone(),
            };
            context.push_resource_file(resources[i].name.clone(), path);
            assert(files.take(i + 1).drop_last() =~= files.take(i as int));
            assert(files.take(i + 1).last() == files[i as int]);
            i += 1;
        }
        assert(files.take(files.len() as int) =~= files);
        proof {
            if distinct_resources(resources@) {
                assert(named_once(files)) by {
                    assert forall|a: int, b: int| 0 <= a < b < files.len() implies (#[trigger] files[a]).0 != (
                    #[trigger] files[b]).0 by {
                        assert(resources@[a].name@ != resources@[b].name@);
                    }
                }
                lemma_distinct_stay(files);
            }
        }
        App { name, job_groups: groups, context }
    }

    /// The parts of the pipeline: its name, its groups, of which no two
    /// bear one name, and its pool.
    pub fn into_parts(self) -> (r: (String, Vec<JobGroup<HttpJob<T>>>, ContextPool))
        ensures
            r.0@ == self.label(),
            r.1@ == self.groups(),
            r.2 == self.pool(),
            forall|i: int, j: int| 0 <= i < j < r.1@.len() ==> (#[trigger] r.1@[i]).label() != (#[trigger] r.1@[j]).label(),
    {
        proof {
            use_type_invariant(&self);
        }
        (self.name, self.job_groups, self.context)
    }
}

/// Makes a job of every entry of a group, under a fresh id, and has the
/// pool keep each entry's variables under its job's id.
fn build_jobs<T: SendMessage>(entries: Vec<PipelineEntry>, context: &mut ContextPool, client: &Arc<T>) -> (r:
    Vec<(HttpJob<T>, RunInfo)>)
    ensures
        final(context).standard() == old(context).standard(),
        final(context).globals() == old(context).globals(),
        final(context).resources() == old(context).resources(),
        r@.len() == entries@.len(),
        forall|j: int| 0 <= j < r@.len() ==> made_of(#[trigger] r@[j], entries@[j], *client),
        forall|id: u128| unused_from(r@, 0, id) ==> final(context).scoped(id) == old(context).scoped(id),
        forall|j: int|
            0 <= j < r@.len() && unused_from(r@, j + 1, (#[trigger] r@[j]).1.id) ==> final(context).scoped(
                r@[j].1.id,
            ) == entries@[j].vars@,
{
    let ghost all = entries@;
    let mut pending = reversed(entries);
    let mut jobs: Vec<(HttpJob<T>, RunInfo)> = Vec::new();
    while pending.len() > 0
        invariant
            pending@.len() + jobs@.len() == all.len(),
            forall|k: int| 0 <= k < pending@.len() ==> pending@[k] == all[all.len() - 1 - k],
            context.standard() == old(context).standard(),
            context.globals() == old(context).globals(),
            context.resources() == old(context).resources(),
            forall|j: int| 0 <= j < jobs@.len() ==> made_of(#[trigger] jobs@[j], all[j], *client),
            forall|id: u128| unused_from(jobs@, 0, id) ==> context.scoped(id) == old(context).scoped(id),
            forall|j: int|
                0 <= j < jobs@.len() && unused_from(jobs@, j + 1, (#[trigger] jobs@[j]).1.id)
                    ==> context.scoped(jobs@[j].1.id) == all[j].vars@,
        decreases pending@.len(),
    {
        let ghost old_jobs = jobs@;
        let ghost pool_before = *context;
        match pending.pop() {
            Some(entry) => {
                let ghost source = entry;
                let PipelineEntry {
                    before: _,
                    after: _,
                    name,
                    job_type,
                    vars,
                    capture,
                    on,
                    assertions,
                    delay,
                    repeats,
                } = entry;
                let info = RunInfo::new(name, repeats, delay, capture, on, assertions);
                context.push_contextual_vars(vars, info.id);
                match job_type {
                    JobType::Http { request, method, body, headers } => {
                        let job = HttpJob::new(request, method, headers, body, client.clone());
                        jobs.push((job, info));
                    },
                }
                proof {
                    let n = old_jobs.len() as int;
                    assert(source == all[n]);
                    assert forall|j: int| 0 <= j < jobs@.len() implies made_of(#[trigger] jobs@[j], all[j], *client) by {
                        if j < old_jobs.len() {
                            assert(jobs@[j] == old_jobs[j]);
                        }
                    }
                    assert forall|id: u128| unused_from(jobs@, 0, id) implies context.scoped(id) == old(
                        context,
                    ).scoped(id) by {
                        assert(jobs@[n].1.id != id);
                        assert(unused_from(old_jobs, 0, id)) by {
                            assert forall|k: int| 0 <= k < old_jobs.len() implies (#[trigger] old_jobs[k]).1.id
                                != id by {
                                assert(jobs@[k] == old_jobs[k]);
                            }
                        }
                    }
                    assert forall|j: int|
                        0 <= j < jobs@.len() && unused_from(
                            jobs@,
                            j + 1,
                            (#[trigger] jobs@[j]).1.id,
                        ) implies context.scoped(jobs@[j].1.id) == all[j].vars@ by {
                        if j < n {
                            let id = jobs@[j].1.id;
                            assert(jobs@[j] == old_jobs[j]);
                            assert(jobs@[n].1.id != id);
                            assert(unused_from(old_jobs, j + 1, id)) by {
                                assert forall|k: int| j + 1 <= k < old_jobs.len() implies (
                                #[trigger] old_jobs[k]).1.id != id by {
                                    assert(jobs@[k] == old_jobs[k]);
                                }
                            }
                        }
                    }
                }
            },
            None => {},
        }
    }
    jobs
}

} // verus!
