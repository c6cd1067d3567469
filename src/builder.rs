use vstd::prelude::*;
use vstd::string::*;

use crate::cli::{Backend, Layout};
use crate::decimal::{decimal, decimal_string};
use crate::errcode::{Errcode, GeneralErrorKind};
use crate::paths::{copy_path, copy_string, parts_view, PathView};
use crate::pyproject::strings_view;

verus! {

/// The target being packaged: its name and its root (entry) path.
pub struct BuildTarget {
    pub name: String,
    pub root: String,
}

/// What the packaging needs to know of the host.
pub struct HostInfo {
    /// The OS name as std reports it (`windows`, `linux`, `macos`, ...).
    pub os: String,
    /// The number of logical cores, 0 when unknown.
    pub cores: usize,
    /// The most recent version-control tag, if any.
    pub version: Option<String>,
}

/// The platform where application bundles exist.
pub open spec fn is_bundle_platform(os: Seq<char>) -> bool {
    os == "macos"@
}

/// Which layouts each backend can produce on each platform.
pub open spec fn layout_supported(backend: Backend, os: Seq<char>, layout: Layout) -> bool {
    match backend {
        Backend::Nuitka => if is_bundle_platform(os) {
            layout == Layout::Bundle
        } else {
            layout != Layout::Bundle
        },
        Backend::Pyinstaller => layout != Layout::Bundle,
    }
}

/// A bundle is refused by Nuitka on every platform but the bundle platform,
/// and by PyInstaller on every platform; on the bundle platform Nuitka
/// refuses the other layouts.
pub proof fn lemma_layout_legality(os: Seq<char>, layout: Layout)
    ensures
        !layout_supported(Backend::Pyinstaller, os, Layout::Bundle),
        !is_bundle_platform(os) ==> !layout_supported(Backend::Nuitka, os, Layout::Bundle),
        is_bundle_platform(os) && layout != Layout::Bundle ==> !layout_supported(
            Backend::Nuitka,
            os,
            layout,
        ),
{
}

/// Accepts a layout the backend supports on this platform; rejects any other
/// before anything is run.
pub fn check_layout(backend: Backend, os: &String, layout: Layout) -> (r: Result<(), Errcode>)
    ensures
        r is Ok <==> layout_supported(backend, os@, layout),
        r is Err ==> r == Err::<(), Errcode>(
            Errcode::GeneralError(GeneralErrorKind::UnsupportedLayout),
        ),
{
    let bundle_platform = *os == String::from_str("macos");
    let ok = match backend {
        Backend::Nuitka => if bundle_platform {
            layout == Layout::Bundle
        } else {
            layout != Layout::Bundle
        },
        Backend::Pyinstaller => layout != Layout::Bundle,
    };
    if ok {
        Ok(())
    } else {
        Err(Errcode::GeneralError(GeneralErrorKind::UnsupportedLayout))
    }
}

/// The parallelism hint: the core count, at least 1.
pub open spec fn effective_jobs(cores: usize) -> nat {
    if cores == 0 {
        1
    } else {
        cores as nat
    }
}

pub open spec fn version_or_default(version: Option<String>) -> Seq<char> {
    match version {
        Some(v) => v@,
        None => "0.0.0"@,
    }
}

/// The name of the packaged output inside `build`.
pub open spec fn output_name(name: Seq<char>, os: Seq<char>, layout: Layout) -> Seq<char> {
    match layout {
        Layout::Bundle => name + ".app"@,
        Layout::Onefile => if os == "windows"@ {
            name + ".exe"@
        } else {
            name
        },
        Layout::Onedir => name,
    }
}

pub open spec fn output_path(name: Seq<char>, os: Seq<char>, layout: Layout) -> PathView {
    seq!["build"@, output_name(name, os, layout)]
}

/// The file name Nuitka is told to produce, whatever the target.
pub open spec fn nuitka_output_filename() -> Seq<char> {
    "App"@
}

/// Where Nuitka's output ends up: a single file or bundle under the fixed
/// output filename; a directory build under the target's name once finalized.
pub open spec fn nuitka_output_path(target_name: Seq<char>, os: Seq<char>, layout: Layout) -> PathView {
    if layout == Layout::Onedir {
        output_path(target_name, os, layout)
    } else {
        output_path(nuitka_output_filename(), os, layout)
    }
}

/// A filesystem change a packaging phase makes.
#[derive(Debug, PartialEq, Eq)]
pub enum FsAction {
    /// Remove the file or directory if it is there.
    RemoveIfExists(Vec<String>),
    /// Move the first path to the second.
    Rename(Vec<String>, Vec<String>),
}

/// A filesystem change over paths as components.
pub enum FsActionView {
    RemoveIfExists(PathView),
    Rename(PathView, PathView),
}

impl View for FsAction {
    type V = FsActionView;

    open spec fn view(&self) -> FsActionView {
        match self {
            FsAction::RemoveIfExists(p) => FsActionView::RemoveIfExists(parts_view(p@)),
            FsAction::Rename(a, b) => FsActionView::Rename(parts_view(a@), parts_view(b@)),
        }
    }
}

pub open spec fn actions_view(v: Seq<FsAction>) -> Seq<FsActionView> {
    v.map_values(|a: FsAction| a@)
}

/// Base flags, then layout flags, then the configured options, then the
/// user's own arguments: a later flag can override an earlier one.
pub open spec fn nuitka_options(
    name: Seq<char>,
    root: Seq<char>,
    host_cores: usize,
    version: Seq<char>,
    layout: Layout,
    extra: Seq<Seq<char>>,
    user: Seq<Seq<char>>,
) -> Seq<Seq<char>> {
    seq![
        "--output-dir=build"@,
        "--output-filename="@ + nuitka_output_filename(),
        root,
        "--jobs="@ + decimal(effective_jobs(host_cores)),
    ] + match layout {
        Layout::Onefile => seq!["--onefile"@],
        Layout::Onedir => seq!["--standalone"@],
        Layout::Bundle => seq![
            "--macos-create-app-bundle"@,
            "--macos-app-name="@ + name,
            "--macos-app-version="@ + version,
        ],
    } + extra + user
}

/// The work directory of each layout, so that runs of both do not collide.
pub open spec fn pyinstaller_workpath(layout: Layout) -> Seq<char> {
    if layout == Layout::Onefile {
        "build/pyinstaller-onefile"@
    } else {
        "build/pyinstaller-onedir"@
    }
}

pub open spec fn pyinstaller_options(
    name: Seq<char>,
    root: Seq<char>,
    layout: Layout,
    extra: Seq<Seq<char>>,
    user: Seq<Seq<char>>,
) -> Seq<Seq<char>> {
    seq![
        "--distpath=build"@,
        "--workpath="@ + pyinstaller_workpath(layout),
        "--name="@ + name,
        "--noconfirm"@,
        root,
    ] + (if layout == Layout::Onefile {
        seq!["--onefile"@]
    } else {
        seq!["--onedir"@]
    }) + extra + user
}

/// `prefix` followed by `s`.
fn prefixed(prefix: &str, s: &str) -> (r: String)
    ensures
        r@ == prefix@ + s@,
{
    let mut r = String::from_str(prefix);
    r.append(s);
    r
}

/// Appends a copy of each string of `src` to `dst`.
fn extend_strings(dst: &mut Vec<String>, src: &Vec<String>)
    ensures
        strings_view(final(dst)@) == strings_view(old(dst)@) + strings_view(src@),
{
    let ghost start = strings_view(dst@);
    let mut i: usize = 0;
    while i < src.len()
        invariant
            i <= src@.len(),
            strings_view(dst@) == start + strings_view(src@.take(i as int)),
        decreases src@.len() - i,
    {
        let ghost before = strings_view(dst@);
        dst.push(copy_string(&src[i]));
        assert(strings_view(dst@) =~= before.push(src@[i as int]@));
        assert(strings_view(src@.take(i + 1)) =~= strings_view(src@.take(i as int)).push(
            src@[i as int]@,
        ));
        assert(strings_view(dst@) =~= start + strings_view(src@.take(i + 1)));
        i = i + 1;
    }
    assert(src@.take(src@.len() as int) =~= src@);
}

fn output_path_of(name: &String, os: &String, layout: Layout) -> (r: Vec<String>)
    ensures
        parts_view(r@) == output_path(name@, os@, layout),
{
    let file = match layout {
        Layout::Bundle => prefixed(name.as_str(), ".app"),
        Layout::Onefile => if *os == String::from_str("windows") {
            prefixed(name.as_str(), ".exe")
        } else {
            copy_string(name)
        },
        Layout::Onedir => copy_string(name),
    };
    let r = vec![String::from_str("build"), file];
    assert(parts_view(r@) =~= output_path(name@, os@, layout));
    r
}

/// A packaging job for Nuitka.
pub struct NuitkaBuilder {
    pub target_name: String,
    pub target_dir: String,
    pub exe: Vec<String>,
    pub layout: Layout,
    pub os: String,
    pub options: Vec<String>,
}

impl NuitkaBuilder {
    /// Composes the job, or rejects a layout Nuitka cannot produce here.
    pub fn new(
        target: &BuildTarget,
        nuitka_exe: &Vec<String>,
        layout: Layout,
        host: &HostInfo,
        extra_options: &Vec<String>,
        backend_args: &Vec<String>,
    ) -> (r: Result<NuitkaBuilder, Errcode>)
        ensures
            r is Err <==> !layout_supported(Backend::Nuitka, host.os@, layout),
            r is Err ==> r == Err::<NuitkaBuilder, Errcode>(
                Errcode::GeneralError(GeneralErrorKind::UnsupportedLayout),
            ),
            r matches Ok(b) ==> {
                &&& b.target_name@ == target.name@
                &&& b.target_dir@ == target.root@
                &&& parts_view(b.exe@) == parts_view(nuitka_exe@)
                &&& b.layout == layout
                &&& b.os@ == host.os@
                &&& strings_view(b.options@) == nuitka_options(
                    target.name@,
                    target.root@,
                    host.cores,
                    version_or_default(host.version),
                    layout,
                    strings_view(extra_options@),
                    strings_view(backend_args@),
                )
            },
    {
        check_layout(Backend::Nuitka, &host.os, layout)?;
        let jobs: usize = if host.cores == 0 {
            1
        } else {
            host.cores
        };
        let jobs_text = decimal_string(jobs);
        let mut options: Vec<String> = vec![
            String::from_str("--output-dir=build"),
            String::from_str("--output-filename=App"),
            copy_string(&target.root),
            prefixed("--jobs=", jobs_text.as_str()),
        ];
        let ghost base = strings_view(options@);
        match layout {
            Layout::Onefile => options.push(String::from_str("--onefile")),
            Layout::Onedir => options.push(String::from_str("--standalone")),
            Layout::Bundle => {
                let version = match &host.version {
                    Some(v) => copy_string(v),
                    None => String::from_str("0.0.0"),
                };
                options.push(String::from_str("--macos-create-app-bundle"));
                options.push(prefixed("--macos-app-name=", target.name.as_str()));
                options.push(prefixed("--macos-app-version=", version.as_str()));
            },
        }
        extend_strings(&mut options, extra_options);
        extend_strings(&mut options, backend_args);
        proof {
            reveal_strlit("--output-filename=App");
            reveal_strlit("--output-filename=");
            reveal_strlit("App");
            assert("--output-filename=App"@ =~= "--output-filename="@ + nuitka_output_filename());
        }
        assert(strings_view(options@) =~= nuitka_options(
            target.name@,
            target.root@,
            host.cores,
            version_or_default(host.version),
            layout,
            strings_view(extra_options@),
            strings_view(backend_args@),
        ));
        Ok(
            NuitkaBuilder {
                target_name: copy_string(&target.name),
                target_dir: copy_string(&target.root),
                exe: copy_path(nuitka_exe),
                layout,
                os: copy_string(&host.os),
                options,
            },
        )
    }

    /// Removes the output of an earlier run.
    pub fn pre_build(&self) -> (r: Vec<FsAction>)
        ensures
            actions_view(r@) == seq![
                FsActionView::RemoveIfExists(
                    nuitka_output_path(self.target_name@, self.os@, self.layout),
                ),
            ],
    {
        let name = if self.layout == Layout::Onedir {
            copy_string(&self.target_name)
        } else {
            String::from_str("App")
        };
        let r = vec![FsAction::RemoveIfExists(output_path_of(&name, &self.os, self.layout))];
        assert(actions_view(r@) =~= seq![
            FsActionView::RemoveIfExists(
                nuitka_output_path(self.target_name@, self.os@, self.layout),
            ),
        ]);
        r
    }

    /// For a directory build, moves Nuitka's `build/<root>.dist` to
    /// `build/<name>`, replacing what is there; nothing for other layouts.
    pub fn post_build(&self) -> (r: Vec<FsAction>)
        ensures
            self.layout == Layout::Onedir ==> actions_view(r@) == seq![
                FsActionView::RemoveIfExists(seq!["build"@, self.target_name@]),
                FsActionView::Rename(
                    seq!["build"@, self.target_dir@ + ".dist"@],
                    seq!["build"@, self.target_name@],
                ),
            ],
            self.layout != Layout::Onedir ==> r@.len() == 0,
    {
        if self.layout != Layout::Onedir {
            return Vec::new();
        }
        let new_dir = vec![String::from_str("build"), copy_string(&self.target_name)];
        let old_dir = vec![String::from_str("build"), prefixed(self.target_dir.as_str(), ".dist")];
        assert(parts_view(new_dir@) =~= seq!["build"@, self.target_name@]);
        assert(parts_view(old_dir@) =~= seq!["build"@, self.target_dir@ + ".dist"@]);
        let r = vec![FsAction::RemoveIfExists(copy_path(&new_dir)), FsAction::Rename(old_dir, new_dir)];
        assert(actions_view(r@) =~= seq![
            FsActionView::RemoveIfExists(seq!["build"@, self.target_name@]),
            FsActionView::Rename(
                seq!["build"@, self.target_dir@ + ".dist"@],
                seq!["build"@, self.target_name@],
            ),
        ]);
        r
    }
}

/// A packaging job for PyInstaller.
pub struct PyInstallerBuilder {
    pub target_name: String,
    pub target_dir: String,
    pub exe: Vec<String>,
    pub layout: Layout,
    pub os: String,
    pub options: Vec<String>,
}

impl PyInstallerBuilder {
    /// Composes the job, or rejects the bundle layout, which PyInstaller
    /// never produces.
    pub fn new(
        target: &BuildTarget,
        pyinstaller_exe: &Vec<String>,
        layout: Layout,
        host: &HostInfo,
        extra_options: &Vec<String>,
        backend_args: &Vec<String>,
    ) -> (r: Result<PyInstallerBuilder, Errcode>)
        ensures
            r is Err <==> layout == Layout::Bundle,
            r is Err ==> r == Err::<PyInstallerBuilder, Errcode>(
                Errcode::GeneralError(GeneralErrorKind::UnsupportedLayout),
            ),
            r matches Ok(b) ==> {
                &&& b.target_name@ == target.name@
                &&& b.target_dir@ == target.root@
                &&& parts_view(b.exe@) == parts_view(pyinstaller_exe@)
                &&& b.layout == layout
                &&& b.os@ == host.os@
                &&& strings_view(b.options@) == pyinstaller_options(
                    target.name@,
                    target.root@,
                    layout,
                    strings_view(extra_options@),
                    strings_view(backend_args@),
                )
            },
    {
        check_layout(Backend::Pyinstaller, &host.os, layout)?;
        let workpath = if layout == Layout::Onefile {
            "--workpath=build/pyinstaller-onefile"
        } else {
            "--workpath=build/pyinstaller-onedir"
        };
        let mut options: Vec<String> = vec![
            String::from_str("--distpath=build"),
            String::from_str(workpath),
            prefixed("--name=", target.name.as_str()),
            String::from_str("--noconfirm"),
            copy_string(&target.root),
        ];
        if layout == Layout::Onefile {
            options.push(String::from_str("--onefile"));
        } else {
            options.push(String::from_str("--onedir"));
        }
        extend_strings(&mut options, extra_options);
        extend_strings(&mut options, backend_args);
        proof {
            reveal_strlit("--workpath=");
            reveal_strlit("build/pyinstaller-onefile");
            reveal_strlit("build/pyinstaller-onedir");
            reveal_strlit("--workpath=build/pyinstaller-onefile");
            reveal_strlit("--workpath=build/pyinstaller-onedir");
            assert("--workpath="@ + pyinstaller_workpath(layout) =~= workpath@);
        }
        assert(strings_view(options@) =~= pyinstaller_options(
            target.name@,
            target.root@,
            layout,
            strings_view(extra_options@),
            strings_view(backend_args@),
        ));
        Ok(
            PyInstallerBuilder {
                target_name: copy_string(&target.name),
                target_dir: copy_string(&target.root),
                exe: copy_path(pyinstaller_exe),
                layout,
                os: copy_string(&host.os),
                options,
            },
        )
    }

    /// Removes the output of an earlier run.
    pub fn pre_build(&self) -> (r: Vec<FsAction>)
        ensures
            actions_view(r@) == seq![
                FsActionView::RemoveIfExists(output_path(self.target_name@, self.os@, self.layout)),
            ],
    {
        let r = vec![FsAction::RemoveIfExists(output_path_of(&self.target_name, &self.os, self.layout))];
        assert(actions_view(r@) =~= seq![
            FsActionView::RemoveIfExists(output_path(self.target_name@, self.os@, self.layout)),
        ]);
        r
    }

    /// Removes the build spec PyInstaller leaves beside the project.
    pub fn post_build(&self) -> (r: Vec<FsAction>)
        ensures
            actions_view(r@) == seq![FsActionView::RemoveIfExists(seq![self.target_name@ + ".spec"@])],
    {
        let spec = vec![prefixed(self.target_name.as_str(), ".spec")];
        assert(parts_view(spec@) =~= seq![self.target_name@ + ".spec"@]);
        let r = vec![FsAction::RemoveIfExists(spec)];
        assert(actions_view(r@) =~= seq![FsActionView::RemoveIfExists(seq![self.target_name@ + ".spec"@])]);
        r
    }
}

} // verus!
