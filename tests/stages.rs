use pyside_cli::assets::{compile_resources, touch_init_py};
use pyside_cli::cache::{Cache, Category};
use pyside_cli::errcode::{Errcode, GeneralErrorKind};
use pyside_cli::i18n::{compile_i18n_ts_files, generate_i18n_ts_files};
use pyside_cli::paths::{extension, file_stem};
use pyside_cli::stage::{Arg, SourceFile, StagePlan, StageStep};
use pyside_cli::ui::convert_ui_files;

fn p(parts: &[&str]) -> Vec<String> {
    parts.iter().map(|x| x.to_string()).collect()
}

fn file(parts: &[&str], fingerprint: u64) -> SourceFile {
    SourceFile { path: p(parts), fingerprint }
}

fn text(x: &str) -> Arg {
    Arg::Text(x.to_string())
}

fn path(parts: &[&str]) -> Arg {
    Arg::Path(p(parts))
}

fn apply(cache: &mut Cache, plan: &StagePlan) {
    for call in &plan.calls {
        cache.apply_call(plan.category, call);
    }
}

#[test]
fn stem_and_extension() {
    assert_eq!(file_stem(&p(&["a", "b.tar.gz"])), Some("b.tar".to_string()));
    assert_eq!(file_stem(&p(&["a", ".hidden"])), Some(".hidden".to_string()));
    assert_eq!(file_stem(&p(&["plain"])), Some("plain".to_string()));
    assert_eq!(file_stem(&p(&[])), None);
    assert_eq!(extension(&p(&["x", "main.py"])), Some("py".to_string()));
    assert_eq!(extension(&p(&["x", ".ui"])), None);
    assert_eq!(extension(&p(&["x", "README"])), None);
}

#[test]
fn end_to_end_one_stale_translation_one_fresh_form() {
    let root = p(&["P"]);
    let mut cache = Cache::new();
    cache.record(Category::Translations, "i18n/en_US.ts".to_string(), 100);
    cache.record(Category::Ui, "ui/main.ui".to_string(), 50);

    let ts = vec![file(&["P", "i18n", "en_US.ts"], 200)];
    let forms = vec![file(&["P", "ui", "main.ui"], 50)];

    let plan = compile_i18n_ts_files(&root, &ts, &cache).unwrap();
    assert_eq!(plan.category, Category::Translations);
    assert_eq!(plan.create_dirs, vec![p(&["P", "assets", "i18n"])]);
    assert_eq!(plan.calls.len(), 1);
    assert_eq!(
        plan.calls[0].args,
        vec![
            path(&["P", "i18n", "en_US.ts"]),
            text("-qm"),
            path(&["P", "assets", "i18n", "en_US.qm"]),
        ]
    );
    assert_eq!(plan.calls[0].records, vec![("i18n/en_US.ts".to_string(), 200)]);

    let ui_plan = convert_ui_files(&root, true, &forms, &cache).unwrap();
    assert_eq!(ui_plan.calls.len(), 0);

    let before_ui = cache.ui.to_pairs();
    apply(&mut cache, &plan);
    assert_eq!(cache.i18n.to_pairs(), vec![("i18n/en_US.ts".to_string(), 200)]);
    assert_eq!(cache.ui.to_pairs(), before_ui);
}

#[test]
fn second_run_invokes_nothing() {
    let root = p(&["proj"]);
    let ts = vec![
        file(&["proj", "i18n", "en_US.ts"], 10),
        file(&["proj", "i18n", "zh_CN.ts"], 11),
    ];
    let forms = vec![
        file(&["proj", "ui", "main.ui"], 12),
        file(&["proj", "ui", "dialogs", "about.ui"], 13),
    ];
    let assets = vec![
        file(&["proj", "assets", "icon.png"], 14),
        file(&["proj", "assets", "img", "logo.svg"], 15),
    ];
    let mut cache = Cache::new();

    let t = compile_i18n_ts_files(&root, &ts, &cache).unwrap();
    assert_eq!(t.calls.len(), 2);
    apply(&mut cache, &t);
    let u = convert_ui_files(&root, true, &forms, &cache).unwrap();
    assert_eq!(u.calls.len(), 2);
    apply(&mut cache, &u);
    let a = compile_resources(&root, &assets, &cache).unwrap();
    assert_eq!(a.calls.len(), 1);
    apply(&mut cache, &a);

    assert_eq!(compile_i18n_ts_files(&root, &ts, &cache).unwrap().calls.len(), 0);
    assert_eq!(convert_ui_files(&root, true, &forms, &cache).unwrap().calls.len(), 0);
    let again = compile_resources(&root, &assets, &cache).unwrap();
    assert!(again.calls.is_empty() && again.create_dirs.is_empty() && again.manifest.is_none());
}

#[test]
fn empty_asset_list_does_nothing() {
    let cache = Cache::new();
    let plan = compile_resources(&p(&["proj"]), &Vec::new(), &cache).unwrap();
    assert!(plan.create_dirs.is_empty());
    assert!(plan.manifest.is_none());
    assert!(plan.calls.is_empty());
    let t = compile_i18n_ts_files(&p(&["proj"]), &Vec::new(), &cache).unwrap();
    assert!(t.create_dirs.is_empty() && t.calls.is_empty());
    let u = convert_ui_files(&p(&["proj"]), true, &Vec::new(), &cache).unwrap();
    assert!(u.create_dirs.is_empty() && u.calls.is_empty());
}

#[test]
fn form_output_keeps_subdirectories() {
    let root = p(&["r"]);
    let forms = vec![file(&["r", "ui", "sub", "dlg.ui"], 3)];
    let plan = convert_ui_files(&root, true, &forms, &Cache::new()).unwrap();
    assert_eq!(plan.create_dirs, vec![p(&["r", "resources"]), p(&["r", "resources", "sub"])]);
    assert_eq!(
        plan.calls[0].args,
        vec![
            path(&["r", "ui", "sub", "dlg.ui"]),
            text("-o"),
            path(&["r", "resources", "sub", "dlg_ui.py"]),
        ]
    );
    assert_eq!(plan.calls[0].records, vec![("ui/sub/dlg.ui".to_string(), 3)]);
}

#[test]
fn form_outside_ui_dir_is_rejected() {
    let forms = vec![file(&["r", "widgets", "dlg.ui"], 3)];
    assert!(matches!(
        convert_ui_files(&p(&["r"]), true, &forms, &Cache::new()),
        Err(Errcode::GeneralError(GeneralErrorKind::FileNameInvalid))
    ));
    let ts = vec![file(&["elsewhere", "en.ts"], 3)];
    assert!(matches!(
        compile_i18n_ts_files(&p(&["r"]), &ts, &Cache::new()),
        Err(Errcode::GeneralError(GeneralErrorKind::FileNameInvalid))
    ));
    let assets = vec![file(&["r", "icon.png"], 3)];
    assert!(matches!(
        compile_resources(&p(&["r"]), &assets, &Cache::new()),
        Err(Errcode::GeneralError(GeneralErrorKind::FileNameInvalid))
    ));
}

#[test]
fn resource_manifest_lists_every_asset() {
    let root = p(&["r"]);
    let mut cache = Cache::new();
    cache.record(Category::Assets, "assets/a.png".to_string(), 7);
    let assets = vec![file(&["r", "assets", "a.png"], 7), file(&["r", "assets", "d", "b.svg"], 9)];
    let plan = compile_resources(&root, &assets, &cache).unwrap();
    let manifest = plan.manifest.unwrap();
    assert_eq!(manifest.path, p(&["r", "resources", "assets.qrc"]));
    assert_eq!(
        manifest.text,
        "<!DOCTYPE RCC>\n<RCC version=\"1.0\">\n  <qresource>\
         \x20 <file alias=\"a.png\">../assets/a.png</file>\
         \x20 <file alias=\"d/b.svg\">../assets/d/b.svg</file>\
         </qresource>\n</RCC>"
    );
    assert_eq!(plan.create_dirs, vec![p(&["r", "resources"])]);
    assert_eq!(
        plan.calls[0].args,
        vec![
            path(&["r", "resources", "assets.qrc"]),
            text("-o"),
            path(&["r", "resources", "resource.py"]),
        ]
    );
    assert_eq!(
        plan.calls[0].records,
        vec![("assets/a.png".to_string(), 7), ("assets/d/b.svg".to_string(), 9)]
    );
}

#[test]
fn unchanged_assets_are_skipped() {
    let mut cache = Cache::new();
    cache.record(Category::Assets, "assets/a.png".to_string(), 7);
    let assets = vec![file(&["r", "assets", "a.png"], 7)];
    let plan = compile_resources(&p(&["r"]), &assets, &cache).unwrap();
    assert!(plan.calls.is_empty() && plan.manifest.is_none());
}

#[test]
fn translation_update_per_language() {
    let plan = generate_i18n_ts_files(
        &p(&["r"]),
        &vec![p(&["r", "main.py"])],
        &vec![p(&["r", "ui", "w.ui"])],
        &vec!["en_US".to_string(), "zh_CN".to_string()],
    );
    assert_eq!(plan.create_dirs, vec![p(&["r", "i18n"])]);
    assert_eq!(plan.calls.len(), 2);
    assert_eq!(
        plan.calls[1].args,
        vec![
            text("-silent"),
            text("-locations"),
            text("absolute"),
            text("-extensions"),
            text("-ui"),
            path(&["r", "main.py"]),
            path(&["r", "ui", "w.ui"]),
            text("-ts"),
            path(&["r", "i18n", "zh_CN.ts"]),
        ]
    );
    assert!(plan.calls[0].records.is_empty());
    let none = generate_i18n_ts_files(&p(&["r"]), &Vec::new(), &Vec::new(), &Vec::new());
    assert!(none.calls.is_empty() && none.create_dirs.is_empty());
}

#[test]
fn init_py_markers() {
    let files = touch_init_py(&p(&["r", "resources"]), &vec![p(&["r", "resources", "sub"])]);
    assert_eq!(
        files,
        vec![
            p(&["r", "resources", "__init__.py"]),
            p(&["r", "resources", "sub", "__init__.py"]),
        ]
    );
}

#[test]
fn repeated_key_is_processed_once_and_settles() {
    let root = p(&["r"]);
    let ts = vec![file(&["r", "i18n", "en.ts"], 10), file(&["r", "i18n", "en.ts"], 5)];
    let mut cache = Cache::new();
    let plan = compile_i18n_ts_files(&root, &ts, &cache).unwrap();
    assert_eq!(plan.calls.len(), 1);
    apply(&mut cache, &plan);
    assert_eq!(cache.i18n.get(&"i18n/en.ts".to_string()), Some(10));
    assert!(compile_i18n_ts_files(&root, &ts, &cache).unwrap().calls.is_empty());

    let later = vec![file(&["r", "i18n", "en.ts"], 5), file(&["r", "i18n", "en.ts"], 10)];
    let mut fresh = Cache::new();
    let plan = compile_i18n_ts_files(&root, &later, &fresh).unwrap();
    assert_eq!(plan.calls.len(), 2);
    apply(&mut fresh, &plan);
    assert!(compile_i18n_ts_files(&root, &later, &fresh).unwrap().calls.is_empty());

    let mut ac = Cache::new();
    ac.record(Category::Assets, "assets/old.png".to_string(), 10);
    let assets = vec![file(&["r", "assets", "new.png"], 3), file(&["r", "assets", "old.png"], 5)];
    let a = compile_resources(&root, &assets, &ac).unwrap();
    assert_eq!(
        a.calls[0].records,
        vec![("assets/new.png".to_string(), 3), ("assets/old.png".to_string(), 5)]
    );
    apply(&mut ac, &a);
    assert_eq!(ac.assets.get(&"assets/old.png".to_string()), Some(5));
    assert!(compile_resources(&root, &assets, &ac).unwrap().calls.is_empty());
}

#[test]
fn failed_call_aborts_and_keeps_earlier_entries() {
    let root = p(&["r"]);
    let ts = vec![file(&["r", "i18n", "a.ts"], 1), file(&["r", "i18n", "b.ts"], 2)];
    let mut cache = Cache::new();
    let plan = compile_i18n_ts_files(&root, &ts, &cache).unwrap();
    assert_eq!(plan.first_step(), StageStep::Next(0));
    assert_eq!(cache.complete_call(&plan, 0, true), StageStep::Next(1));
    assert_eq!(cache.complete_call(&plan, 1, false), StageStep::Aborted);
    assert_eq!(cache.i18n.get(&"i18n/a.ts".to_string()), Some(1));
    assert_eq!(cache.i18n.get(&"i18n/b.ts".to_string()), None);
    assert_eq!(cache.complete_call(&plan, 1, true), StageStep::Finished);
    assert_eq!(cache.i18n.get(&"i18n/b.ts".to_string()), Some(2));
    assert_eq!(StagePlan::empty(Category::Ui).first_step(), StageStep::Finished);
}

#[test]
fn forms_skipped_without_ui_directory() {
    let forms = vec![file(&["r", "widgets", "dlg.ui"], 3)];
    let plan = convert_ui_files(&p(&["r"]), false, &forms, &Cache::new()).unwrap();
    assert!(plan.calls.is_empty() && plan.create_dirs.is_empty());
}
