use pyside_cli::builder::{check_layout, BuildTarget, FsAction, HostInfo, NuitkaBuilder, PyInstallerBuilder};
use pyside_cli::cli::{Backend, Layout};
use pyside_cli::errcode::{Errcode, GeneralErrorKind};
use pyside_cli::packaging::{next_phase, BackendJob, PackagePhase};
use pyside_cli::pyproject::{OptionValue, PyProjectConfig};

fn s(x: &str) -> String {
    x.to_string()
}

fn p(parts: &[&str]) -> Vec<String> {
    parts.iter().map(|x| x.to_string()).collect()
}

fn target() -> BuildTarget {
    BuildTarget { name: s("App"), root: s("app") }
}

fn host(os: &str, cores: usize) -> HostInfo {
    HostInfo { os: s(os), cores, version: None }
}

const UNSUPPORTED: Errcode = Errcode::GeneralError(GeneralErrorKind::UnsupportedLayout);

#[test]
fn nuitka_options_in_order() {
    let b = NuitkaBuilder::new(
        &target(),
        &p(&["/usr", "bin", "nuitka"]),
        Layout::Onefile,
        &host("linux", 8),
        &vec![s("--enable-plugin=pyside6")],
        &vec![s("--lto=no")],
    )
    .unwrap();
    assert_eq!(
        b.options,
        vec![
            "--output-dir=build",
            "--output-filename=App",
            "app",
            "--jobs=8",
            "--onefile",
            "--enable-plugin=pyside6",
            "--lto=no",
        ]
    );
    let d = NuitkaBuilder::new(&target(), &p(&["nuitka"]), Layout::Onedir, &host("windows", 0), &Vec::new(), &Vec::new())
        .unwrap();
    assert_eq!(d.options, vec!["--output-dir=build", "--output-filename=App", "app", "--jobs=1", "--standalone"]);
    let many = NuitkaBuilder::new(&target(), &p(&["nuitka"]), Layout::Onedir, &host("linux", 128), &Vec::new(), &Vec::new())
        .unwrap();
    assert_eq!(many.options[3], "--jobs=128");
}

#[test]
fn later_options_override_earlier_ones() {
    let config = PyProjectConfig::new(
        Vec::new(),
        Vec::new(),
        vec![(s("standalone"), OptionValue::Bool(true))],
        vec![(s("win32"), vec![(s("windows-flag"), OptionValue::Bool(true))])],
    );
    let extra = config.get_extra_nuitka_options_for_platform(&s("windows"));
    let b = NuitkaBuilder::new(
        &target(),
        &p(&["nuitka"]),
        Layout::Onefile,
        &host("windows", 4),
        &extra,
        &vec![s("--windows-flag=off")],
    )
    .unwrap();
    let pos = |x: &str| b.options.iter().position(|o| o == x).unwrap();
    assert!(pos("--standalone") < pos("--windows-flag"));
    assert!(pos("--windows-flag") < pos("--windows-flag=off"));
    assert_eq!(b.options.iter().filter(|o| o.starts_with("--windows-flag")).count(), 2);
}

#[test]
fn bundle_flags_on_bundle_platform() {
    let mut h = host("macos", 2);
    let b = NuitkaBuilder::new(&target(), &p(&["nuitka"]), Layout::Bundle, &h, &Vec::new(), &Vec::new()).unwrap();
    assert_eq!(
        b.options[4..].to_vec(),
        vec!["--macos-create-app-bundle", "--macos-app-name=App", "--macos-app-version=0.0.0"]
    );
    h.version = Some(s("1.2.3"));
    let v = NuitkaBuilder::new(&target(), &p(&["nuitka"]), Layout::Bundle, &h, &Vec::new(), &Vec::new()).unwrap();
    assert_eq!(v.options[6], "--macos-app-version=1.2.3");
    assert_eq!(v.pre_build(), vec![FsAction::RemoveIfExists(p(&["build", "App.app"]))]);
}

#[test]
fn layout_legality() {
    let none: Vec<String> = Vec::new();
    assert_eq!(
        NuitkaBuilder::new(&target(), &p(&["nuitka"]), Layout::Bundle, &host("linux", 1), &none, &none).err(),
        Some(UNSUPPORTED)
    );
    assert_eq!(
        NuitkaBuilder::new(&target(), &p(&["nuitka"]), Layout::Onefile, &host("macos", 1), &none, &none).err(),
        Some(UNSUPPORTED)
    );
    for os in ["linux", "windows", "macos"] {
        assert_eq!(
            PyInstallerBuilder::new(&target(), &p(&["pyinstaller"]), Layout::Bundle, &host(os, 1), &none, &none).err(),
            Some(UNSUPPORTED)
        );
        assert_eq!(check_layout(Backend::Pyinstaller, &s(os), Layout::Bundle), Err(UNSUPPORTED));
    }
    assert_eq!(check_layout(Backend::Nuitka, &s("windows"), Layout::Onedir), Ok(()));
    assert_eq!(check_layout(Backend::Nuitka, &s("macos"), Layout::Bundle), Ok(()));
    assert!(BackendJob::new(Backend::Nuitka, &target(), &p(&["n"]), Layout::Bundle, &host("windows", 1), &none, &none).is_err());
}

#[test]
fn pyinstaller_layouts_use_distinct_work_dirs() {
    let none: Vec<String> = Vec::new();
    let one = PyInstallerBuilder::new(&target(), &p(&["pyinstaller"]), Layout::Onefile, &host("linux", 1), &none, &vec![s("--clean")])
        .unwrap();
    let dir = PyInstallerBuilder::new(&target(), &p(&["pyinstaller"]), Layout::Onedir, &host("linux", 1), &none, &none).unwrap();
    assert_eq!(
        one.options,
        vec![
            "--distpath=build",
            "--workpath=build/pyinstaller-onefile",
            "--name=App",
            "--noconfirm",
            "app",
            "--onefile",
            "--clean",
        ]
    );
    assert_eq!(dir.options[1], "--workpath=build/pyinstaller-onedir");
    assert_eq!(dir.options[5], "--onedir");
    assert_eq!(dir.post_build(), vec![FsAction::RemoveIfExists(p(&["App.spec"]))]);
}

#[test]
fn nuitka_finalize_renames_only_directory_builds() {
    let none: Vec<String> = Vec::new();
    let dir = NuitkaBuilder::new(&target(), &p(&["nuitka"]), Layout::Onedir, &host("linux", 1), &none, &none).unwrap();
    assert_eq!(
        dir.post_build(),
        vec![
            FsAction::RemoveIfExists(p(&["build", "App"])),
            FsAction::Rename(p(&["build", "app.dist"]), p(&["build", "App"])),
        ]
    );
    let one = NuitkaBuilder::new(&target(), &p(&["nuitka"]), Layout::Onefile, &host("windows", 1), &none, &none).unwrap();
    assert!(one.post_build().is_empty());
    assert_eq!(one.pre_build(), vec![FsAction::RemoveIfExists(p(&["build", "App.exe"]))]);
}

#[test]
fn failed_execute_skips_finalize() {
    let none: Vec<String> = Vec::new();
    let job = BackendJob::new(Backend::Nuitka, &target(), &p(&["nuitka"]), Layout::Onedir, &host("linux", 1), &none, &none)
        .unwrap();
    let mut phase = PackagePhase::Prepare;
    let mut performed: Vec<FsAction> = Vec::new();
    let outcomes = [true, false, true, true];
    for ok in outcomes {
        performed.extend(job.actions_for(phase));
        phase = next_phase(phase, ok);
    }
    assert_eq!(phase, PackagePhase::Failed);
    assert_eq!(performed, vec![FsAction::RemoveIfExists(p(&["build", "App"]))]);
    assert!(job.actions_for(PackagePhase::Failed).is_empty());
    assert_eq!(job.program(), &p(&["nuitka"]));
    assert_eq!(job.arguments()[4], "--standalone");
}

#[test]
fn successful_run_finalizes_once() {
    assert_eq!(next_phase(PackagePhase::Prepare, true), PackagePhase::Execute);
    assert_eq!(next_phase(PackagePhase::Prepare, false), PackagePhase::Failed);
    assert_eq!(next_phase(PackagePhase::Execute, true), PackagePhase::Finalize);
    assert_eq!(next_phase(PackagePhase::Finalize, true), PackagePhase::Done);
    assert_eq!(next_phase(PackagePhase::Finalize, false), PackagePhase::Failed);
    assert_eq!(next_phase(PackagePhase::Done, false), PackagePhase::Done);
}

#[test]
fn nuitka_output_filename_is_fixed() {
    let none: Vec<String> = Vec::new();
    let tool = BuildTarget { name: s("Tool"), root: s("app") };
    let b = NuitkaBuilder::new(&tool, &p(&["nuitka"]), Layout::Onefile, &host("linux", 2), &none, &none).unwrap();
    assert_eq!(b.options[1], "--output-filename=App");
    assert_eq!(b.pre_build(), vec![FsAction::RemoveIfExists(p(&["build", "App"]))]);
    let d = NuitkaBuilder::new(&tool, &p(&["nuitka"]), Layout::Onedir, &host("linux", 2), &none, &none).unwrap();
    assert_eq!(d.options[1], "--output-filename=App");
    assert_eq!(d.pre_build(), vec![FsAction::RemoveIfExists(p(&["build", "Tool"]))]);
    let py = PyInstallerBuilder::new(&tool, &p(&["pyinstaller"]), Layout::Onefile, &host("windows", 2), &none, &none).unwrap();
    assert_eq!(py.pre_build(), vec![FsAction::RemoveIfExists(p(&["build", "Tool.exe"]))]);
}
