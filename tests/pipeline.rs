use pyside_cli::cli::{Args, Backend, BuildOptions, Command, Layout};
use pyside_cli::context::Context;
use pyside_cli::errcode::{Errcode, ToolchainErrorKind};
use pyside_cli::pipeline::{phase_tool, phases, BuildStage, Phase, Tool, Toolchain};
use pyside_cli::pyproject::PyProjectConfig;

fn p(parts: &[&str]) -> Vec<String> {
    parts.iter().map(|x| x.to_string()).collect()
}

fn toolchain() -> Toolchain {
    Toolchain {
        lupdate: None,
        lrelease: Some(p(&["bin", "lrelease"])),
        uic: None,
        rcc: Some(p(&["bin", "rcc"])),
        git: None,
        nuitka: Some(p(&["bin", "nuitka"])),
        pyinstaller: None,
        pytest: None,
    }
}

#[test]
fn phases_follow_fixed_order() {
    assert_eq!(
        phases(BuildStage::All),
        vec![Phase::Translations, Phase::Ui, Phase::Assets, Phase::PersistCache, Phase::Package]
    );
    assert_eq!(
        phases(BuildStage::Resources),
        vec![Phase::Translations, Phase::Ui, Phase::Assets, Phase::PersistCache]
    );
    assert_eq!(phases(BuildStage::Build), vec![Phase::PersistCache, Phase::Package]);
    assert_eq!(phases(BuildStage::Ui), vec![Phase::Ui, Phase::PersistCache]);
    assert_eq!(phases(BuildStage::I18n), vec![Phase::Translations, Phase::PersistCache]);
    assert_eq!(phases(BuildStage::Assets), vec![Phase::Assets, Phase::PersistCache]);
}

#[test]
fn missing_tool_is_reported() {
    let t = toolchain();
    assert_eq!(t.require(Tool::Rcc), Ok(&p(&["bin", "rcc"])));
    assert_eq!(t.require(Tool::Uic), Err(Errcode::ToolchainError(ToolchainErrorKind::UicNotFound)));
    assert_eq!(
        t.require(Tool::PyInstaller),
        Err(Errcode::ToolchainError(ToolchainErrorKind::PyInstallerNotFound))
    );
    assert_eq!(phase_tool(Phase::Ui, Backend::Nuitka), Some(Tool::Uic));
    assert_eq!(phase_tool(Phase::PersistCache, Backend::Nuitka), None);
    assert_eq!(phase_tool(Phase::Package, Backend::Pyinstaller), Some(Tool::PyInstaller));
}

#[test]
fn files_are_classified() {
    let args = Args { command: Command::Targets, debug: false, work_dir: None, low_perf: false };
    let config = PyProjectConfig::new(Vec::new(), Vec::new(), Vec::new(), Vec::new());
    let mut ctx = Context::new(args, toolchain(), config);
    let root = p(&["r"]);
    let files = vec![
        p(&["r", "main.py"]),
        p(&["r", "ui", "main.ui"]),
        p(&["r", "assets", "icon.py"]),
        p(&["r", "i18n", "en_US.ts"]),
        p(&["r", "resources", "main_ui.py"]),
        p(&["r", "test", "test_app.py"]),
        p(&["r", "README.md"]),
        p(&["r", "pkg", "util.py"]),
    ];
    ctx.glob_files(&root, &files);
    assert_eq!(ctx.source_list, vec![p(&["r", "main.py"]), p(&["r", "pkg", "util.py"])]);
    assert_eq!(ctx.ui_list, vec![p(&["r", "ui", "main.ui"])]);
    assert_eq!(ctx.asset_list, vec![p(&["r", "assets", "icon.py"])]);
    assert_eq!(ctx.i18n_list, vec![p(&["r", "i18n", "en_US.ts"])]);
}

#[test]
fn requested_layout() {
    let mut o = BuildOptions {
        onefile: false,
        onedir: false,
        bundle: false,
        target: None,
        backend: Backend::Nuitka,
        no_cache: false,
        backend_args: Vec::new(),
    };
    assert_eq!(o.layout(), Layout::Onedir);
    o.bundle = true;
    assert_eq!(o.layout(), Layout::Bundle);
    o.onefile = true;
    assert_eq!(o.layout(), Layout::Onefile);
}
