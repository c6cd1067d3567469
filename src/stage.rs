use vstd::prelude::*;

use crate::cache::{stale, Cache, CacheView, Category, FingerprintMap};
use crate::paths::{join_slash, join_from, parts_view, relative, PathView};

verus! {

/// One argument of an external tool invocation.
#[derive(Debug, PartialEq, Eq)]
pub enum Arg {
    Text(String),
    Path(Vec<String>),
}

/// What an argument denotes: a text, or a path as its components.
pub enum ArgView {
    Text(Seq<char>),
    Path(PathView),
}

impl View for Arg {
    type V = ArgView;

    open spec fn view(&self) -> ArgView {
        match self {
            Arg::Text(s) => ArgView::Text(s@),
            Arg::Path(p) => ArgView::Path(parts_view(p@)),
        }
    }
}

pub open spec fn args_view(args: Seq<Arg>) -> Seq<ArgView> {
    args.map_values(|a: Arg| a@)
}

pub open spec fn records_view(records: Seq<(String, u64)>) -> Seq<(Seq<char>, u64)> {
    records.map_values(|r: (String, u64)| (r.0@, r.1))
}

/// An input file of a stage together with its current fingerprint.
pub struct SourceFile {
    pub path: Vec<String>,
    pub fingerprint: u64,
}

/// A source file as a path and a fingerprint.
pub struct FileView {
    pub path: PathView,
    pub fingerprint: u64,
}

impl View for SourceFile {
    type V = FileView;

    open spec fn view(&self) -> FileView {
        FileView { path: parts_view(self.path@), fingerprint: self.fingerprint }
    }
}

pub open spec fn files_view(files: Seq<SourceFile>) -> Seq<FileView> {
    files.map_values(|f: SourceFile| f@)
}

/// The cache key of a file: its path below the project root, joined with `/`.
pub open spec fn file_key(root: PathView, path: PathView) -> Seq<char> {
    join_slash(relative(root, path))
}

/// One invocation of an external tool, with the cache entries to record once
/// it has succeeded.
pub struct ToolCall {
    pub args: Vec<Arg>,
    pub records: Vec<(String, u64)>,
}

/// A call as its arguments and the entries it records.
pub struct CallView {
    pub args: Seq<ArgView>,
    pub records: Seq<(Seq<char>, u64)>,
}

impl View for ToolCall {
    type V = CallView;

    open spec fn view(&self) -> CallView {
        CallView { args: args_view(self.args@), records: records_view(self.records@) }
    }
}

pub open spec fn calls_view(calls: Seq<ToolCall>) -> Seq<CallView> {
    calls.map_values(|c: ToolCall| c@)
}

/// A generated file to write before the tools run.
pub struct Manifest {
    pub path: Vec<String>,
    pub text: String,
}

/// What a stage has to do: create directories, write a manifest, then run
/// each call in order, recording its entries in `category` after it succeeds.
pub struct StagePlan {
    pub category: Category,
    pub create_dirs: Vec<Vec<String>>,
    pub manifest: Option<Manifest>,
    pub calls: Vec<ToolCall>,
}

pub open spec fn dirs_view(dirs: Seq<Vec<String>>) -> Seq<PathView> {
    dirs.map_values(|d: Vec<String>| parts_view(d@))
}

impl StagePlan {
    /// A plan with nothing to do.
    pub fn empty(category: Category) -> (r: StagePlan)
        ensures
            r.category == category,
            r.create_dirs@.len() == 0,
            r.manifest is None,
            r.calls@.len() == 0,
    {
        StagePlan { category, create_dirs: Vec::new(), manifest: None, calls: Vec::new() }
    }

    pub open spec fn is_noop(&self) -> bool {
        self.create_dirs@.len() == 0 && self.manifest is None && self.calls@.len() == 0
    }
}

/// The cache after recording `records` in order.
pub open spec fn record_all(
    cache: CacheView,
    c: Category,
    records: Seq<(Seq<char>, u64)>,
) -> CacheView
    decreases records.len(),
{
    if records.len() == 0 {
        cache
    } else {
        record_all(cache, c, records.drop_last()).record(
            c,
            records.last().0,
            records.last().1,
        )
    }
}

/// The cache after every call of `calls` succeeded, in order.
pub open spec fn apply_calls(cache: CacheView, c: Category, calls: Seq<CallView>) -> CacheView
    decreases calls.len(),
{
    if calls.len() == 0 {
        cache
    } else {
        record_all(apply_calls(cache, c, calls.drop_last()), c, calls.last().records)
    }
}

impl Cache {
    /// Records the entries of a call that has succeeded.
    pub fn apply_call(&mut self, c: Category, call: &ToolCall)
        requires
            old(self).wf(),
        ensures
            final(self).wf(),
            final(self)@ == record_all(old(self)@, c, call@.records),
    {
        let mut i: usize = 0;
        while i < call.records.len()
            invariant
                self.wf(),
                i <= call.records@.len(),
                self@ == record_all(old(self)@, c, records_view(call.records@).take(i as int)),
            decreases call.records@.len() - i,
        {
            let key = call.records[i].0.clone();
            self.record(c, key, call.records[i].1);
            proof {
                let rs = records_view(call.records@);
                assert(rs.take(i + 1).drop_last() =~= rs.take(i as int));
            }
            i = i + 1;
        }
        assert(records_view(call.records@).take(call.records@.len() as int) =~= records_view(
            call.records@,
        ));
    }
}

/// Where a stage run stands after a call: the next call to run, the end of
/// the plan, or an abort after a failed call.
#[derive(Clone, Copy, Debug, PartialEq, Eq, Structural)]
pub enum StageStep {
    Next(usize),
    Finished,
    Aborted,
}

impl StagePlan {
    /// The first step of running the plan's calls.
    pub fn first_step(&self) -> (r: StageStep)
        ensures
            r == (if self.calls@.len() > 0 {
                StageStep::Next(0)
            } else {
                StageStep::Finished
            }),
    {
        if self.calls.len() > 0 {
            StageStep::Next(0)
        } else {
            StageStep::Finished
        }
    }
}

impl Cache {
    /// Takes the outcome of call `index` of `plan`. On success its entries are
    /// recorded and the run moves on to the next call; on failure the cache is
    /// left as it is and the stage aborts, so the item is retried next run.
    pub fn complete_call(&mut self, plan: &StagePlan, index: usize, succeeded: bool) -> (r:
        StageStep)
        requires
            old(self).wf(),
            index < plan.calls@.len(),
        ensures
            final(self).wf(),
            succeeded ==> final(self)@ == record_all(
                old(self)@,
                plan.category,
                plan.calls@[index as int]@.records,
            ),
            succeeded ==> r == (if index + 1 < plan.calls@.len() {
                StageStep::Next((index + 1) as usize)
            } else {
                StageStep::Finished
            }),
            !succeeded ==> final(self)@ == old(self)@ && r == StageStep::Aborted,
    {
        if !succeeded {
            return StageStep::Aborted;
        }
        self.apply_call(plan.category, &plan.calls[index]);
        let n = plan.calls.len();
        let next = index + 1;
        if next < n {
            StageStep::Next(next)
        } else {
            StageStep::Finished
        }
    }
}

/// Whether file `f` has to be processed again against mapping `m`.
pub open spec fn stale_file(root: PathView, m: Map<Seq<char>, u64>, f: FileView) -> bool {
    stale(m, file_key(root, f.path), f.fingerprint)
}

/// The mapping as a stage sweeps over `files` in order: a file that is stale
/// at its turn records its fingerprint, so a later file with the same key is
/// judged against it.
pub open spec fn sweep(root: PathView, files: Seq<FileView>, m: Map<Seq<char>, u64>) -> Map<
    Seq<char>,
    u64,
>
    decreases files.len(),
{
    if files.len() == 0 {
        m
    } else {
        let m0 = sweep(root, files.drop_last(), m);
        let f = files.last();
        if stale_file(root, m0, f) {
            m0.insert(file_key(root, f.path), f.fingerprint)
        } else {
            m0
        }
    }
}

/// File `i` is stale when its turn comes in the sweep.
pub open spec fn stale_at_turn(
    root: PathView,
    files: Seq<FileView>,
    m: Map<Seq<char>, u64>,
    i: int,
) -> bool {
    stale_file(root, sweep(root, files.take(i), m), files[i])
}

/// The calls of a per-file stage: one for each file stale at its turn, in
/// input order.
pub open spec fn planned(
    root: PathView,
    files: Seq<FileView>,
    m: Map<Seq<char>, u64>,
    call: spec_fn(FileView) -> CallView,
) -> Seq<CallView>
    decreases files.len(),
{
    if files.len() == 0 {
        Seq::empty()
    } else {
        let prev = planned(root, files.drop_last(), m, call);
        if stale_file(root, sweep(root, files.drop_last(), m), files.last()) {
            prev.push(call(files.last()))
        } else {
            prev
        }
    }
}

/// Each call records exactly the key and fingerprint of its own file.
pub open spec fn records_own_entry(root: PathView, call: spec_fn(FileView) -> CallView) -> bool {
    forall|f: FileView| #[trigger] call(f).records == seq![(file_key(root, f.path), f.fingerprint)]
}

/// A sweep only raises fingerprints, and leaves no file of `files` stale.
pub proof fn lemma_sweep_settles(root: PathView, files: Seq<FileView>, m: Map<Seq<char>, u64>)
    ensures
        forall|k: Seq<char>|
            #[trigger] m.contains_key(k) ==> sweep(root, files, m).contains_key(k) && sweep(
                root,
                files,
                m,
            )[k] >= m[k],
        forall|i: int|
            0 <= i < files.len() ==> !stale_file(root, sweep(root, files, m), #[trigger] files[i]),
    decreases files.len(),
{
    if files.len() > 0 {
        let pre = files.drop_last();
        lemma_sweep_settles(root, pre, m);
        assert forall|i: int| 0 <= i < files.len() implies !stale_file(
            root,
            sweep(root, files, m),
            #[trigger] files[i],
        ) by {
            if i < files.len() - 1 {
                assert(pre[i] == files[i]);
            }
        }
    }
}

/// The staleness of a file at its turn, against the cache as the stage found
/// it: a file recorded at a fingerprint no older than its own is never
/// processed; a stale file whose key no earlier file shares is processed.
pub proof fn lemma_stale_at_turn(root: PathView, files: Seq<FileView>, m: Map<Seq<char>, u64>, i: int)
    requires
        0 <= i < files.len(),
    ensures
        !stale_file(root, m, files[i]) ==> !stale_at_turn(root, files, m, i),
        stale_file(root, m, files[i]) && (forall|j: int|
            0 <= j < i ==> file_key(root, (#[trigger] files[j]).path) != file_key(root, files[i].path))
            ==> stale_at_turn(root, files, m, i),
{
    let pre = files.take(i);
    lemma_sweep_settles(root, pre, m);
    lemma_sweep_keeps_other_keys(root, pre, m, file_key(root, files[i].path));
}

proof fn lemma_sweep_keeps_other_keys(
    root: PathView,
    files: Seq<FileView>,
    m: Map<Seq<char>, u64>,
    k: Seq<char>,
)
    ensures
        (forall|j: int| 0 <= j < files.len() ==> file_key(root, (#[trigger] files[j]).path) != k)
            ==> (sweep(root, files, m).contains_key(k) == m.contains_key(k) && sweep(
            root,
            files,
            m,
        )[k] == m[k]),
    decreases files.len(),
{
    if files.len() > 0 {
        let pre = files.drop_last();
        if forall|j: int| 0 <= j < files.len() ==> file_key(root, (#[trigger] files[j]).path) != k {
            assert forall|j: int| 0 <= j < pre.len() implies file_key(root, (#[trigger] pre[j]).path)
                != k by {
                assert(pre[j] == files[j]);
            }
            assert(file_key(root, files[files.len() - 1].path) != k);
        }
        lemma_sweep_keeps_other_keys(root, pre, m, k);
    }
}

proof fn lemma_apply_planned_is_sweep(
    root: PathView,
    files: Seq<FileView>,
    cache: CacheView,
    c: Category,
    call: spec_fn(FileView) -> CallView,
)
    requires
        records_own_entry(root, call),
    ensures
        apply_calls(cache, c, planned(root, files, cache.get(c), call)).get(c) == sweep(
            root,
            files,
            cache.get(c),
        ),
    decreases files.len(),
{
    if files.len() > 0 {
        let pre = files.drop_last();
        let last = files.last();
        let m = cache.get(c);
        lemma_apply_planned_is_sweep(root, pre, cache, c, call);
        let x = apply_calls(cache, c, planned(root, pre, m, call));
        if stale_file(root, sweep(root, pre, m), last) {
            let plan = planned(root, files, m, call);
            let cl = call(last);
            let k = file_key(root, last.path);
            assert(plan.drop_last() =~= planned(root, pre, m, call));
            assert(plan.last() == cl);
            assert(cl.records == seq![(k, last.fingerprint)]);
            assert(cl.records.drop_last() =~= Seq::<(Seq<char>, u64)>::empty());
            assert(apply_calls(cache, c, plan) == record_all(x, c, cl.records));
            assert(record_all(x, c, cl.records) == record_all(x, c, cl.records.drop_last()).record(
                c,
                k,
                last.fingerprint,
            ));
            assert(x.record(c, k, last.fingerprint).get(c) == x.get(c).insert(k, last.fingerprint));
        }
    }
}

proof fn lemma_sweep_split(root: PathView, files: Seq<FileView>, m: Map<Seq<char>, u64>, n: int)
    requires
        0 <= n <= files.len(),
    ensures
        sweep(root, files, m) == sweep(root, files.skip(n), sweep(root, files.take(n), m)),
    decreases files.len(),
{
    if n == files.len() {
        assert(files.take(n) =~= files);
        assert(files.skip(n) =~= Seq::<FileView>::empty());
    } else {
        let pre = files.drop_last();
        lemma_sweep_split(root, pre, m, n);
        assert(pre.take(n) =~= files.take(n));
        assert(files.skip(n).drop_last() =~= pre.skip(n));
        assert(files.skip(n).last() == files.last());
    }
}

/// Per entry, after every call of a per-file stage has succeeded and been
/// recorded: a file whose recorded fingerprint is no older than its own gets
/// no call, and its entry is not lowered; when no other file of the list
/// shares its key, its entry ends at its own fingerprint if it was stale and
/// is left as it was otherwise.
pub proof fn lemma_stage_entry(
    root: PathView,
    files: Seq<FileView>,
    cache: CacheView,
    c: Category,
    call: spec_fn(FileView) -> CallView,
    i: int,
)
    requires
        records_own_entry(root, call),
        0 <= i < files.len(),
    ensures
        ({
            let m = cache.get(c);
            let fin = apply_calls(cache, c, planned(root, files, m, call)).get(c);
            let k = file_key(root, files[i].path);
            &&& !stale_file(root, m, files[i]) ==> !stale_at_turn(root, files, m, i)
                && fin.contains_key(k) && fin[k] >= m[k]
            &&& (forall|j: int|
                0 <= j < files.len() && j != i ==> file_key(root, (#[trigger] files[j]).path)
                    != k) ==> {
                &&& stale_file(root, m, files[i]) <==> stale_at_turn(root, files, m, i)
                &&& fin.contains_key(k)
                &&& fin[k] == if stale_file(root, m, files[i]) {
                    files[i].fingerprint
                } else {
                    m[k]
                }
            }
        }),
{
    let m = cache.get(c);
    let k = file_key(root, files[i].path);
    lemma_apply_planned_is_sweep(root, files, cache, c, call);
    lemma_stale_at_turn(root, files, m, i);
    lemma_sweep_settles(root, files, m);
    if forall|j: int|
        0 <= j < files.len() && j != i ==> file_key(root, (#[trigger] files[j]).path) != k {
        let before = files.take(i);
        let upto = files.take(i + 1);
        let after = files.skip(i + 1);
        assert forall|j: int| 0 <= j < before.len() implies file_key(
            root,
            (#[trigger] before[j]).path,
        ) != k by {
            assert(before[j] == files[j]);
        }
        assert forall|j: int| 0 <= j < after.len() implies file_key(
            root,
            (#[trigger] after[j]).path,
        ) != k by {
            assert(after[j] == files[i + 1 + j]);
        }
        lemma_sweep_keeps_other_keys(root, before, m, k);
        assert(upto.drop_last() =~= before);
        assert(upto.last() == files[i]);
        lemma_sweep_keeps_other_keys(root, after, sweep(root, upto, m), k);
        lemma_sweep_split(root, files, m, i + 1);
    }
}

/// With nothing stale against `m`, a sweep changes nothing and plans nothing.
pub proof fn lemma_nothing_stale_plans_nothing(
    root: PathView,
    files: Seq<FileView>,
    m: Map<Seq<char>, u64>,
    call: spec_fn(FileView) -> CallView,
)
    requires
        forall|i: int| 0 <= i < files.len() ==> !stale_file(root, m, #[trigger] files[i]),
    ensures
        sweep(root, files, m) == m,
        planned(root, files, m, call) == Seq::<CallView>::empty(),
    decreases files.len(),
{
    if files.len() > 0 {
        let pre = files.drop_last();
        assert forall|i: int| 0 <= i < pre.len() implies !stale_file(root, m, #[trigger] pre[i]) by {
            assert(pre[i] == files[i]);
        }
        lemma_nothing_stale_plans_nothing(root, pre, m, call);
        assert(!stale_file(root, m, files[files.len() - 1]));
    }
}

/// Once every call of a per-file stage has succeeded and been recorded, the
/// same inputs plan no call at all: a second run invokes no tool.
pub proof fn lemma_second_run_plans_nothing(
    root: PathView,
    files: Seq<FileView>,
    cache: CacheView,
    c: Category,
    call: spec_fn(FileView) -> CallView,
)
    requires
        records_own_entry(root, call),
    ensures
        planned(
            root,
            files,
            apply_calls(cache, c, planned(root, files, cache.get(c), call)).get(c),
            call,
        ) == Seq::<CallView>::empty(),
{
    lemma_apply_planned_is_sweep(root, files, cache, c, call);
    lemma_sweep_settles(root, files, cache.get(c));
    lemma_nothing_stale_plans_nothing(root, files, sweep(root, files, cache.get(c)), call);
}

/// The mapping as seen during a sweep: the cache's entries, overridden by
/// those recorded earlier in the same sweep.
pub open spec fn effective(m: Map<Seq<char>, u64>, pending: Map<Seq<char>, u64>) -> Map<
    Seq<char>,
    u64,
> {
    m.union_prefer_right(pending)
}

pub proof fn lemma_effective_insert(
    m: Map<Seq<char>, u64>,
    pending: Map<Seq<char>, u64>,
    k: Seq<char>,
    v: u64,
)
    ensures
        effective(m, pending.insert(k, v)) == effective(m, pending).insert(k, v),
{
    assert(effective(m, pending.insert(k, v)) =~= effective(m, pending).insert(k, v));
}

/// Whether `key` at `fingerprint` is stale against the cache's mapping of `c`
/// overridden by `pending`.
pub fn stale_in_sweep(
    cache: &Cache,
    c: Category,
    pending: &FingerprintMap,
    key: &String,
    fingerprint: u64,
) -> (r: bool)
    requires
        cache.wf(),
        pending.wf(),
    ensures
        r == stale(effective(cache@.get(c), pending@), key@, fingerprint),
{
    match pending.get(key) {
        Some(t) => t < fingerprint,
        None => cache.is_stale(c, key, fingerprint),
    }
}

/// The cache key of `path` below `root`.
pub fn key_of(root: &Vec<String>, path: &Vec<String>) -> (r: String)
    requires
        root@.len() <= path@.len(),
    ensures
        r@ == file_key(parts_view(root@), parts_view(path@)),
{
    let r = join_from(path, root.len());
    assert(parts_view(path@).subrange(root@.len() as int, path@.len() as int) =~= relative(
        parts_view(root@),
        parts_view(path@),
    ));
    r
}

} // verus!
