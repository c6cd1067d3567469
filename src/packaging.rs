use vstd::prelude::*;

use crate::builder::{
    actions_view, layout_supported, nuitka_options, nuitka_output_path, output_path, pyinstaller_options,
    version_or_default, BuildTarget, FsAction, FsActionView, HostInfo, NuitkaBuilder,
    PyInstallerBuilder,
};
use crate::paths::parts_view;
use crate::pyproject::strings_view;
use crate::cli::{Backend, Layout};
use crate::errcode::{Errcode, GeneralErrorKind};

verus! {

/// A packaging job for one of the two backends.
pub enum BackendJob {
    Nuitka(NuitkaBuilder),
    PyInstaller(PyInstallerBuilder),
}

/// The phases of a packaging run, in order, and how a run ends.
#[derive(Clone, Copy, Debug, PartialEq, Eq, Structural)]
pub enum PackagePhase {
    Prepare,
    Execute,
    Finalize,
    Done,
    Failed,
}

/// The phase that follows `p` once it succeeded (`ok`) or failed.
pub open spec fn next_phase_spec(p: PackagePhase, ok: bool) -> PackagePhase {
    match p {
        PackagePhase::Prepare => if ok {
            PackagePhase::Execute
        } else {
            PackagePhase::Failed
        },
        PackagePhase::Execute => if ok {
            PackagePhase::Finalize
        } else {
            PackagePhase::Failed
        },
        PackagePhase::Finalize => if ok {
            PackagePhase::Done
        } else {
            PackagePhase::Failed
        },
        PackagePhase::Done => PackagePhase::Done,
        PackagePhase::Failed => PackagePhase::Failed,
    }
}

/// The phase reached from `Prepare` after the given outcomes.
pub open spec fn phase_after(outcomes: Seq<bool>) -> PackagePhase
    decreases outcomes.len(),
{
    if outcomes.len() == 0 {
        PackagePhase::Prepare
    } else {
        next_phase_spec(phase_after(outcomes.drop_last()), outcomes.last())
    }
}

/// The phase that follows `p`; no phase is retried.
pub fn next_phase(p: PackagePhase, ok: bool) -> (r: PackagePhase)
    ensures
        r == next_phase_spec(p, ok),
{
    match p {
        PackagePhase::Prepare => if ok {
            PackagePhase::Execute
        } else {
            PackagePhase::Failed
        },
        PackagePhase::Execute => if ok {
            PackagePhase::Finalize
        } else {
            PackagePhase::Failed
        },
        PackagePhase::Finalize => if ok {
            PackagePhase::Done
        } else {
            PackagePhase::Failed
        },
        PackagePhase::Done => PackagePhase::Done,
        PackagePhase::Failed => PackagePhase::Failed,
    }
}

proof fn lemma_failed_stays(outcomes: Seq<bool>, k: int)
    requires
        0 <= k <= outcomes.len(),
        phase_after(outcomes.take(k)) == PackagePhase::Failed,
    ensures
        phase_after(outcomes) == PackagePhase::Failed,
    decreases outcomes.len() - k,
{
    if k < outcomes.len() {
        assert(outcomes.take(k + 1).drop_last() =~= outcomes.take(k));
        lemma_failed_stays(outcomes, k + 1);
    } else {
        assert(outcomes.take(k) =~= outcomes);
    }
}

/// Finalize is reached only right after a successful prepare and a successful
/// execute; once execute has failed the run is failed for good, so finalize
/// never runs.
pub proof fn lemma_finalize_only_on_success(outcomes: Seq<bool>)
    ensures
        phase_after(outcomes) == PackagePhase::Finalize ==> outcomes.len() == 2 && outcomes[0]
            && outcomes[1],
        outcomes.len() >= 2 && !outcomes[1] ==> phase_after(outcomes) == PackagePhase::Failed,
{
    if outcomes.len() >= 1 {
        let one = outcomes.take(1);
        assert(one.drop_last() =~= Seq::<bool>::empty());
        assert(one.last() == outcomes[0]);
        assert(phase_after(one.drop_last()) == PackagePhase::Prepare);
        assert(phase_after(one) == next_phase_spec(PackagePhase::Prepare, outcomes[0]));
        if outcomes.len() == 1 {
            assert(outcomes =~= one);
        } else {
            let two = outcomes.take(2);
            assert(two.drop_last() =~= one);
            assert(two.last() == outcomes[1]);
            assert(phase_after(two) == next_phase_spec(phase_after(one), outcomes[1]));
            if !outcomes[0] || !outcomes[1] {
                lemma_failed_stays(outcomes, 2);
            }
            if outcomes.len() == 2 {
                assert(outcomes =~= two);
            } else if phase_after(outcomes) == PackagePhase::Finalize {
                let pre = outcomes.drop_last();
                assert(phase_after(pre) == PackagePhase::Execute);
                lemma_execute_only_after_prepare(pre);
            }
        }
    }
}

proof fn lemma_execute_only_after_prepare(outcomes: Seq<bool>)
    ensures
        phase_after(outcomes) == PackagePhase::Execute ==> outcomes.len() == 1,
    decreases outcomes.len(),
{
    if outcomes.len() > 1 {
        lemma_prepare_only_at_start(outcomes.drop_last());
    }
}

proof fn lemma_prepare_only_at_start(outcomes: Seq<bool>)
    ensures
        phase_after(outcomes) == PackagePhase::Prepare ==> outcomes.len() == 0,
    decreases outcomes.len(),
{
    if outcomes.len() > 0 {
        lemma_prepare_only_at_start(outcomes.drop_last());
    }
}

impl BackendJob {
    /// Composes the job for `backend`, or rejects a layout it cannot
    /// produce on this platform.
    pub fn new(
        backend: Backend,
        target: &BuildTarget,
        exe: &Vec<String>,
        layout: Layout,
        host: &HostInfo,
        extra_options: &Vec<String>,
        backend_args: &Vec<String>,
    ) -> (r: Result<BackendJob, Errcode>)
        ensures
            r is Err <==> !layout_supported(backend, host.os@, layout),
            r is Err ==> r == Err::<BackendJob, Errcode>(
                Errcode::GeneralError(GeneralErrorKind::UnsupportedLayout),
            ),
            r matches Ok(j) ==> (backend == Backend::Nuitka <==> j is Nuitka),
            r matches Ok(BackendJob::Nuitka(b)) ==> {
                &&& b.target_name@ == target.name@
                &&& b.target_dir@ == target.root@
                &&& parts_view(b.exe@) == parts_view(exe@)
                &&& b.layout == layout
                &&& b.os@ == host.os@
            },
            r matches Ok(BackendJob::PyInstaller(b)) ==> {
                &&& b.target_name@ == target.name@
                &&& b.target_dir@ == target.root@
                &&& parts_view(b.exe@) == parts_view(exe@)
                &&& b.layout == layout
                &&& b.os@ == host.os@
            },
            r matches Ok(BackendJob::Nuitka(b)) ==> strings_view(b.options@) == nuitka_options(
                target.name@,
                target.root@,
                host.cores,
                version_or_default(host.version),
                layout,
                strings_view(extra_options@),
                strings_view(backend_args@),
            ),
            r matches Ok(BackendJob::PyInstaller(b)) ==> strings_view(b.options@)
                == pyinstaller_options(
                target.name@,
                target.root@,
                layout,
                strings_view(extra_options@),
                strings_view(backend_args@),
            ),
    {
        match backend {
            Backend::Nuitka => {
                let b = NuitkaBuilder::new(target, exe, layout, host, extra_options, backend_args)?;
                Ok(BackendJob::Nuitka(b))
            },
            Backend::Pyinstaller => {
                let b = PyInstallerBuilder::new(
                    target,
                    exe,
                    layout,
                    host,
                    extra_options,
                    backend_args,
                )?;
                Ok(BackendJob::PyInstaller(b))
            },
        }
    }

    /// The executable of the backend.
    pub fn program(&self) -> (r: &Vec<String>)
        ensures
            r == match self {
                BackendJob::Nuitka(b) => &b.exe,
                BackendJob::PyInstaller(b) => &b.exe,
            },
    {
        match self {
            BackendJob::Nuitka(b) => &b.exe,
            BackendJob::PyInstaller(b) => &b.exe,
        }
    }

    /// The composed argument vector, the same for every phase.
    pub fn arguments(&self) -> (r: &Vec<String>)
        ensures
            r == match self {
                BackendJob::Nuitka(b) => &b.options,
                BackendJob::PyInstaller(b) => &b.options,
            },
    {
        match self {
            BackendJob::Nuitka(b) => &b.options,
            BackendJob::PyInstaller(b) => &b.options,
        }
    }

    /// The filesystem changes of a phase: the backend's clean-up before
    /// preparing, its post-processing when finalizing, and none otherwise;
    /// in particular none once the run has failed.
    pub fn actions_for(&self, phase: PackagePhase) -> (r: Vec<FsAction>)
        ensures
            phase == PackagePhase::Prepare ==> actions_view(r@) == match self {
                BackendJob::Nuitka(b) => seq![
                    FsActionView::RemoveIfExists(
                        nuitka_output_path(b.target_name@, b.os@, b.layout),
                    ),
                ],
                BackendJob::PyInstaller(b) => seq![
                    FsActionView::RemoveIfExists(
                        output_path(b.target_name@, b.os@, b.layout),
                    ),
                ],
            },
            phase == PackagePhase::Finalize ==> match self {
                BackendJob::Nuitka(b) => (b.layout == Layout::Onedir ==> actions_view(r@) == seq![
                    FsActionView::RemoveIfExists(seq!["build"@, b.target_name@]),
                    FsActionView::Rename(
                        seq!["build"@, b.target_dir@ + ".dist"@],
                        seq!["build"@, b.target_name@],
                    ),
                ]) && (b.layout != Layout::Onedir ==> r@.len() == 0),
                BackendJob::PyInstaller(b) => actions_view(r@) == seq![
                    FsActionView::RemoveIfExists(seq![b.target_name@ + ".spec"@]),
                ],
            },
            phase != PackagePhase::Prepare && phase != PackagePhase::Finalize ==> r@.len() == 0,
    {
        match phase {
            PackagePhase::Prepare => match self {
                BackendJob::Nuitka(b) => b.pre_build(),
                BackendJob::PyInstaller(b) => b.pre_build(),
            },
            PackagePhase::Finalize => match self {
                BackendJob::Nuitka(b) => b.post_build(),
                BackendJob::PyInstaller(b) => b.post_build(),
            },
            _ => Vec::new(),
        }
    }
}

} // verus!
