use vstd::prelude::*;

verus! {

/// A file in the tool cache directory. `Dwarfs` and `Winfsp` are extracted
/// from embedded payloads; `MkDwarfs` and `DwarfsExtract` are hard links to
/// `Dwarfs`, because the tool picks its behaviour from the name it is run under.
#[derive(Debug, Clone, Copy, PartialEq, Eq, Structural)]
pub enum CacheFile {
    Dwarfs,
    Winfsp,
    MkDwarfs,
    DwarfsExtract,
}

/// One step of bringing the cache up to date.
#[derive(Debug, Clone, Copy, PartialEq, Eq, Structural)]
pub enum CacheStep {
    /// Decompress the embedded payload into the file.
    Extract(CacheFile),
    /// Hard-link `alias` to the already present `primary`.
    Link { alias: CacheFile, primary: CacheFile },
}

/// Which cache files exist on disk.
#[derive(Debug, Clone, Copy, PartialEq, Eq, Structural)]
pub struct CacheStatus {
    pub dwarfs: bool,
    pub winfsp: bool,
    pub mkdwarfs: bool,
    pub dwarfsextract: bool,
}

pub open spec fn file_name_spec(f: CacheFile) -> Seq<char> {
    match f {
        CacheFile::Dwarfs => "dwarfs.exe"@,
        CacheFile::Winfsp => "winfsp-x64.dll"@,
        CacheFile::MkDwarfs => "mkdwarfs.exe"@,
        CacheFile::DwarfsExtract => "dwarfsextract.exe"@,
    }
}

impl CacheFile {
    /// The file's name inside the cache directory.
    pub fn file_name(&self) -> (r: &'static str)
        ensures
            r@ == file_name_spec(*self),
    {
        match self {
            CacheFile::Dwarfs => "dwarfs.exe",
            CacheFile::Winfsp => "winfsp-x64.dll",
            CacheFile::MkDwarfs => "mkdwarfs.exe",
            CacheFile::DwarfsExtract => "dwarfsextract.exe",
        }
    }
}

pub open spec fn present(s: CacheStatus, f: CacheFile) -> bool {
    match f {
        CacheFile::Dwarfs => s.dwarfs,
        CacheFile::Winfsp => s.winfsp,
        CacheFile::MkDwarfs => s.mkdwarfs,
        CacheFile::DwarfsExtract => s.dwarfsextract,
    }
}

pub open spec fn is_payload(f: CacheFile) -> bool {
    f == CacheFile::Dwarfs || f == CacheFile::Winfsp
}

pub open spec fn step_target(step: CacheStep) -> CacheFile {
    match step {
        CacheStep::Extract(f) => f,
        CacheStep::Link { alias, primary: _ } => alias,
    }
}

/// The status after a step succeeded: its target exists.
pub open spec fn apply_step(s: CacheStatus, step: CacheStep) -> CacheStatus {
    match step_target(step) {
        CacheFile::Dwarfs => CacheStatus { dwarfs: true, ..s },
        CacheFile::Winfsp => CacheStatus { winfsp: true, ..s },
        CacheFile::MkDwarfs => CacheStatus { mkdwarfs: true, ..s },
        CacheFile::DwarfsExtract => CacheStatus { dwarfsextract: true, ..s },
    }
}

pub open spec fn apply_steps(s: CacheStatus, steps: Seq<CacheStep>) -> CacheStatus
    decreases steps.len(),
{
    if steps.len() == 0 {
        s
    } else {
        apply_step(apply_steps(s, steps.drop_last()), steps.last())
    }
}

pub open spec fn materialized(s: CacheStatus) -> bool {
    s.dwarfs && s.winfsp && s.mkdwarfs && s.dwarfsextract
}

/// The files extracted from embedded payloads, in extraction order.
pub open spec fn payloads() -> Seq<CacheFile> {
    seq![CacheFile::Dwarfs, CacheFile::Winfsp]
}

/// The alias names, in linking order.
pub open spec fn aliases() -> Seq<CacheFile> {
    seq![CacheFile::MkDwarfs, CacheFile::DwarfsExtract]
}

/// The file an alias is a hard link to.
pub open spec fn primary_of(alias: CacheFile) -> CacheFile {
    CacheFile::Dwarfs
}

/// One step for each file of `files` that is missing, in the order of `files`.
pub open spec fn steps_for_missing(
    s: CacheStatus,
    files: Seq<CacheFile>,
    step_for: spec_fn(CacheFile) -> CacheStep,
) -> Seq<CacheStep>
    decreases files.len(),
{
    if files.len() == 0 {
        seq![]
    } else {
        (if present(s, files[0]) {
            seq![]
        } else {
            seq![step_for(files[0])]
        }) + steps_for_missing(s, files.drop_first(), step_for)
    }
}

/// The steps for the current status: extract each missing payload, then
/// link each missing alias to its primary, in that order.
pub open spec fn plan_spec(s: CacheStatus) -> Seq<CacheStep> {
    steps_for_missing(s, payloads(), |f: CacheFile| CacheStep::Extract(f))
        + steps_for_missing(
        s,
        aliases(),
        |f: CacheFile| CacheStep::Link { alias: f, primary: primary_of(f) },
    )
}

/// The same plan, spelled out file by file.
spec fn plan_listed(s: CacheStatus) -> Seq<CacheStep> {
    let after_main = if s.dwarfs {
        seq![]
    } else {
        seq![CacheStep::Extract(CacheFile::Dwarfs)]
    };
    let after_driver = if s.winfsp {
        after_main
    } else {
        after_main.push(CacheStep::Extract(CacheFile::Winfsp))
    };
    let after_mk = if s.mkdwarfs {
        after_driver
    } else {
        after_driver.push(CacheStep::Link { alias: CacheFile::MkDwarfs, primary: CacheFile::Dwarfs })
    };
    if s.dwarfsextract {
        after_mk
    } else {
        after_mk.push(CacheStep::Link { alias: CacheFile::DwarfsExtract, primary: CacheFile::Dwarfs })
    }
}

/// The steps that materialise the cache from `status`; none when every file
/// is already there.
pub fn plan_materialization(status: CacheStatus) -> (r: Vec<CacheStep>)
    ensures
        r@ == plan_spec(status),
{
    let mut plan: Vec<CacheStep> = Vec::new();
    if !status.dwarfs {
        plan.push(CacheStep::Extract(CacheFile::Dwarfs));
    }
    if !status.winfsp {
        plan.push(CacheStep::Extract(CacheFile::Winfsp));
    }
    if !status.mkdwarfs {
        plan.push(CacheStep::Link { alias: CacheFile::MkDwarfs, primary: CacheFile::Dwarfs });
    }
    if !status.dwarfsextract {
        plan.push(CacheStep::Link { alias: CacheFile::DwarfsExtract, primary: CacheFile::Dwarfs });
    }
    proof {
        lemma_plan_listed(status);
    }
    assert(plan@ =~= plan_spec(status));
    plan
}

/// Whether every cache file exists.
pub fn is_materialized(status: CacheStatus) -> (r: bool)
    ensures
        r == materialized(status),
{
    status.dwarfs && status.winfsp && status.mkdwarfs && status.dwarfsextract
}

proof fn lemma_plan_listed(s: CacheStatus)
    ensures
        plan_spec(s) == plan_listed(s),
{
    reveal_with_fuel(steps_for_missing, 3);
    assert(payloads().drop_first() =~= seq![CacheFile::Winfsp]);
    assert(payloads().drop_first().drop_first() =~= Seq::<CacheFile>::empty());
    assert(aliases().drop_first() =~= seq![CacheFile::DwarfsExtract]);
    assert(aliases().drop_first().drop_first() =~= Seq::<CacheFile>::empty());
    assert(plan_spec(s) =~= plan_listed(s));
}

proof fn lemma_steps_keep_present(s: CacheStatus, steps: Seq<CacheStep>, f: CacheFile)
    requires
        present(s, f),
    ensures
        present(apply_steps(s, steps), f),
    decreases steps.len(),
{
    if steps.len() > 0 {
        lemma_steps_keep_present(s, steps.drop_last(), f);
    }
}

proof fn lemma_step_target_present(s: CacheStatus, steps: Seq<CacheStep>, j: int)
    requires
        0 <= j < steps.len(),
    ensures
        present(apply_steps(s, steps), step_target(steps[j])),
    decreases steps.len(),
{
    if j < steps.len() - 1 {
        lemma_step_target_present(s, steps.drop_last(), j);
    }
}

spec fn missing(b: bool) -> int {
    if b {
        0
    } else {
        1
    }
}

/// Where the step for a missing file stands in the plan.
spec fn slot(s: CacheStatus, f: CacheFile) -> int {
    match f {
        CacheFile::Dwarfs => 0,
        CacheFile::Winfsp => missing(s.dwarfs),
        CacheFile::MkDwarfs => missing(s.dwarfs) + missing(s.winfsp),
        CacheFile::DwarfsExtract => missing(s.dwarfs) + missing(s.winfsp) + missing(s.mkdwarfs),
    }
}

proof fn lemma_plan_completes(s: CacheStatus)
    ensures
        materialized(apply_steps(s, plan_spec(s))),
{
    lemma_plan_listed(s);
    let p = plan_spec(s);
    let t = apply_steps(s, p);
    assert forall|f: CacheFile| present(t, f) by {
        if present(s, f) {
            lemma_steps_keep_present(s, p, f);
        } else {
            let j = slot(s, f);
            assert(step_target(p[j]) == f);
            lemma_step_target_present(s, p, j);
        }
    }
    assert(present(t, CacheFile::Dwarfs) && present(t, CacheFile::Winfsp));
    assert(present(t, CacheFile::MkDwarfs) && present(t, CacheFile::DwarfsExtract));
}

/// Carrying out the plan leaves every cache file present, and a second plan
/// made afterwards is empty. Across the two, each payload is extracted once
/// if it was missing and never if it was there, and no step repeats.
pub proof fn law_materialize_idempotent(s: CacheStatus)
    ensures
        materialized(apply_steps(s, plan_spec(s))),
        plan_spec(apply_steps(s, plan_spec(s))) == Seq::<CacheStep>::empty(),
        forall|f: CacheFile| is_payload(f) ==> ((exists|i: int| 0 <= i < plan_spec(s).len()
            && #[trigger] plan_spec(s)[i] == CacheStep::Extract(f)) <==> !present(s, f)),
        forall|i: int, j: int| 0 <= i < j < plan_spec(s).len() ==> plan_spec(s)[i] != plan_spec(s)[j],
{
    lemma_plan_completes(s);
    lemma_plan_listed(s);
    lemma_plan_listed(apply_steps(s, plan_spec(s)));
    assert(plan_spec(apply_steps(s, plan_spec(s))) =~= Seq::<CacheStep>::empty());
    let p = plan_spec(s);
    assert forall|f: CacheFile| is_payload(f) implies ((exists|i: int| 0 <= i < p.len()
        && #[trigger] p[i] == CacheStep::Extract(f)) <==> !present(s, f)) by {
        if !present(s, f) {
            assert(p[slot(s, f)] == CacheStep::Extract(f));
        }
    }
}

/// Each link step comes after its primary file exists: the steps before it
/// leave the primary present.
pub proof fn law_links_follow_primary(s: CacheStatus)
    ensures
        forall|i: int| 0 <= i < plan_spec(s).len() ==> (#[trigger] plan_spec(s)[i] matches CacheStep::Link {
            alias: _,
            primary,
        } ==> present(apply_steps(s, plan_spec(s).take(i)), primary)),
{
    lemma_plan_listed(s);
    let p = plan_spec(s);
    assert forall|i: int| 0 <= i < p.len() implies (#[trigger] p[i] matches CacheStep::Link {
        alias: _,
        primary,
    } ==> present(apply_steps(s, p.take(i)), primary)) by {
        if let CacheStep::Link { alias: _, primary } = p[i] {
            assert(primary == CacheFile::Dwarfs);
            if s.dwarfs {
                lemma_steps_keep_present(s, p.take(i), primary);
            } else {
                assert(i > 0);
                assert(p.take(i)[0] == CacheStep::Extract(CacheFile::Dwarfs));
                lemma_step_target_present(s, p.take(i), 0);
            }
        }
    }
}

} // verus!
