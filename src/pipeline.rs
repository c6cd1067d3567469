use vstd::prelude::*;

use crate::assets::{any_stale, asset_records, resource_call};
use crate::cache::{CacheView, Category};
use crate::cli::Backend;
use crate::errcode::{Errcode, ToolchainErrorKind};
use crate::i18n::translation_call;
use crate::paths::PathView;
use crate::stage::{
    apply_calls, file_key, lemma_second_run_plans_nothing, planned, record_all, records_own_entry,
    stale_file, CallView, FileView,
};
use crate::ui::form_call;

verus! {

/// Which stages a run performs.
#[derive(Clone, Copy, Debug, PartialEq, Eq, Structural)]
pub enum BuildStage {
    I18n,
    Ui,
    Assets,
    /// Translations, forms and assets, without packaging.
    Resources,
    /// Packaging only.
    Build,
    All,
}

/// One step of a pipeline run.
#[derive(Clone, Copy, Debug, PartialEq, Eq, Structural)]
pub enum Phase {
    Translations,
    Ui,
    Assets,
    PersistCache,
    Package,
}

pub open spec fn runs_translations(s: BuildStage) -> bool {
    s == BuildStage::I18n || s == BuildStage::Resources || s == BuildStage::All
}

pub open spec fn runs_ui(s: BuildStage) -> bool {
    s == BuildStage::Ui || s == BuildStage::Resources || s == BuildStage::All
}

pub open spec fn runs_assets(s: BuildStage) -> bool {
    s == BuildStage::Assets || s == BuildStage::Resources || s == BuildStage::All
}

pub open spec fn runs_package(s: BuildStage) -> bool {
    s == BuildStage::Build || s == BuildStage::All
}

/// The phases of a run in their fixed order: translations, forms, assets,
/// each when selected; then the cache is persisted, always, once; then
/// packaging when selected.
pub open spec fn phase_plan(s: BuildStage) -> Seq<Phase> {
    (if runs_translations(s) {
        seq![Phase::Translations]
    } else {
        Seq::empty()
    }) + (if runs_ui(s) {
        seq![Phase::Ui]
    } else {
        Seq::empty()
    }) + (if runs_assets(s) {
        seq![Phase::Assets]
    } else {
        Seq::empty()
    }) + seq![Phase::PersistCache] + (if runs_package(s) {
        seq![Phase::Package]
    } else {
        Seq::empty()
    })
}

/// The phases to run for a stage selector.
pub fn phases(s: BuildStage) -> (r: Vec<Phase>)
    ensures
        r@ == phase_plan(s),
{
    let mut r: Vec<Phase> = Vec::new();
    if s == BuildStage::I18n || s == BuildStage::Resources || s == BuildStage::All {
        r.push(Phase::Translations);
    }
    if s == BuildStage::Ui || s == BuildStage::Resources || s == BuildStage::All {
        r.push(Phase::Ui);
    }
    if s == BuildStage::Assets || s == BuildStage::Resources || s == BuildStage::All {
        r.push(Phase::Assets);
    }
    r.push(Phase::PersistCache);
    if s == BuildStage::Build || s == BuildStage::All {
        r.push(Phase::Package);
    }
    assert(r@ =~= phase_plan(s));
    r
}

/// The external tools the pipeline may need.
#[derive(Clone, Copy, Debug, PartialEq, Eq, Structural)]
pub enum Tool {
    LUpdate,
    LRelease,
    Uic,
    Rcc,
    Git,
    Nuitka,
    PyInstaller,
    PyTest,
}

/// The resolved executable of each tool, if found on the host.
pub struct Toolchain {
    pub lupdate: Option<Vec<String>>,
    pub lrelease: Option<Vec<String>>,
    pub uic: Option<Vec<String>>,
    pub rcc: Option<Vec<String>>,
    pub git: Option<Vec<String>>,
    pub nuitka: Option<Vec<String>>,
    pub pyinstaller: Option<Vec<String>>,
    pub pytest: Option<Vec<String>>,
}

/// The tool a phase runs.
pub open spec fn phase_tool_spec(p: Phase, backend: Backend) -> Option<Tool> {
    match p {
        Phase::Translations => Some(Tool::LRelease),
        Phase::Ui => Some(Tool::Uic),
        Phase::Assets => Some(Tool::Rcc),
        Phase::PersistCache => None,
        Phase::Package => Some(
            if backend == Backend::Nuitka {
                Tool::Nuitka
            } else {
                Tool::PyInstaller
            },
        ),
    }
}

pub fn phase_tool(p: Phase, backend: Backend) -> (r: Option<Tool>)
    ensures
        r == phase_tool_spec(p, backend),
{
    match p {
        Phase::Translations => Some(Tool::LRelease),
        Phase::Ui => Some(Tool::Uic),
        Phase::Assets => Some(Tool::Rcc),
        Phase::PersistCache => None,
        Phase::Package => Some(
            if backend == Backend::Nuitka {
                Tool::Nuitka
            } else {
                Tool::PyInstaller
            },
        ),
    }
}

/// The error reported when a tool is missing.
pub open spec fn not_found(t: Tool) -> Errcode {
    Errcode::ToolchainError(
        match t {
            Tool::LUpdate => ToolchainErrorKind::LUpdateNotFound,
            Tool::LRelease => ToolchainErrorKind::LReleaseUpdateNotFound,
            Tool::Uic => ToolchainErrorKind::UicNotFound,
            Tool::Rcc => ToolchainErrorKind::RccNotFound,
            Tool::Git => ToolchainErrorKind::GitNotFound,
            Tool::Nuitka => ToolchainErrorKind::NuitkaNotFound,
            Tool::PyInstaller => ToolchainErrorKind::PyInstallerNotFound,
            Tool::PyTest => ToolchainErrorKind::PyTestNotFound,
        },
    )
}

impl Toolchain {
    pub open spec fn path_of(&self, t: Tool) -> Option<Vec<String>> {
        match t {
            Tool::LUpdate => self.lupdate,
            Tool::LRelease => self.lrelease,
            Tool::Uic => self.uic,
            Tool::Rcc => self.rcc,
            Tool::Git => self.git,
            Tool::Nuitka => self.nuitka,
            Tool::PyInstaller => self.pyinstaller,
            Tool::PyTest => self.pytest,
        }
    }

    /// The executable of `t`; a missing one is a precondition failure.
    pub fn require(&self, t: Tool) -> (r: Result<&Vec<String>, Errcode>)
        ensures
            match self.path_of(t) {
                Some(p) => r == Ok::<&Vec<String>, Errcode>(&p),
                None => r == Err::<&Vec<String>, Errcode>(not_found(t)),
            },
    {
        let (p, e) = match t {
            Tool::LUpdate => (&self.lupdate, ToolchainErrorKind::LUpdateNotFound),
            Tool::LRelease => (&self.lrelease, ToolchainErrorKind::LReleaseUpdateNotFound),
            Tool::Uic => (&self.uic, ToolchainErrorKind::UicNotFound),
            Tool::Rcc => (&self.rcc, ToolchainErrorKind::RccNotFound),
            Tool::Git => (&self.git, ToolchainErrorKind::GitNotFound),
            Tool::Nuitka => (&self.nuitka, ToolchainErrorKind::NuitkaNotFound),
            Tool::PyInstaller => (&self.pyinstaller, ToolchainErrorKind::PyInstallerNotFound),
            Tool::PyTest => (&self.pytest, ToolchainErrorKind::PyTestNotFound),
        };
        match p {
            Some(path) => Ok(path),
            None => Err(Errcode::ToolchainError(e)),
        }
    }
}

proof fn lemma_record_all_frame(
    cache: CacheView,
    c: Category,
    records: Seq<(Seq<char>, u64)>,
    d: Category,
)
    requires
        c != d,
    ensures
        record_all(cache, c, records).get(d) == cache.get(d),
    decreases records.len(),
{
    if records.len() > 0 {
        lemma_record_all_frame(cache, c, records.drop_last(), d);
    }
}

proof fn lemma_apply_calls_frame(cache: CacheView, c: Category, calls: Seq<CallView>, d: Category)
    requires
        c != d,
    ensures
        apply_calls(cache, c, calls).get(d) == cache.get(d),
    decreases calls.len(),
{
    if calls.len() > 0 {
        lemma_apply_calls_frame(cache, c, calls.drop_last(), d);
        lemma_record_all_frame(apply_calls(cache, c, calls.drop_last()), c, calls.last().records, d);
    }
}

/// Assets with equal keys carry equal fingerprints: one snapshot of the disk.
pub open spec fn consistent(root: PathView, files: Seq<FileView>) -> bool {
    forall|i: int, j: int|
        0 <= i < files.len() && 0 <= j < files.len() && file_key(root, (#[trigger] files[i]).path)
            == file_key(root, (#[trigger] files[j]).path) ==> files[i].fingerprint
            == files[j].fingerprint
}

proof fn lemma_asset_records_settle(root: PathView, files: Seq<FileView>, cache: CacheView)
    requires
        consistent(root, files),
    ensures
        forall|i: int|
            0 <= i < files.len() ==> {
                let a = record_all(cache, Category::Assets, asset_records(root, files)).assets;
                a.contains_key(file_key(root, (#[trigger] files[i]).path)) && a[file_key(
                    root,
                    files[i].path,
                )] == files[i].fingerprint
            },
    decreases files.len(),
{
    if files.len() > 0 {
        let pre = files.drop_last();
        assert forall|i: int, j: int|
            0 <= i < pre.len() && 0 <= j < pre.len() && file_key(root, (#[trigger] pre[i]).path)
                == file_key(root, (#[trigger] pre[j]).path) implies pre[i].fingerprint
            == pre[j].fingerprint by {
            assert(pre[i] == files[i] && pre[j] == files[j]);
        }
        lemma_asset_records_settle(root, pre, cache);
        let recs = asset_records(root, files);
        assert(recs.drop_last() == asset_records(root, pre));
        assert forall|i: int| 0 <= i < files.len() implies {
            let a = record_all(cache, Category::Assets, recs).assets;
            a.contains_key(file_key(root, (#[trigger] files[i]).path)) && a[file_key(
                root,
                files[i].path,
            )] == files[i].fingerprint
        } by {
            if i < files.len() - 1 {
                assert(pre[i] == files[i]);
            }
        }
    }
}

/// Running the resource stages (translations, forms, assets) a second time,
/// with every call of the first run succeeded and recorded and no file changed
/// in between, invokes no tool: no translation or form call is planned and no
/// asset is stale. The asset stage records every asset, so its part needs
/// assets of one key to share one fingerprint.
pub proof fn lemma_resource_pipeline_idempotent(
    root: PathView,
    translations: Seq<FileView>,
    forms: Seq<FileView>,
    assets: Seq<FileView>,
    cache: CacheView,
)
    requires
        consistent(root, assets),
    ensures
        ({
            let t_calls = planned(
                root,
                translations,
                cache.translations,
                translation_call(root),
            );
            let c1 = apply_calls(cache, Category::Translations, t_calls);
            let u_calls = planned(root, forms, c1.ui, form_call(root));
            let c2 = apply_calls(c1, Category::Ui, u_calls);
            let c3 = if any_stale(root, assets, c2.assets) {
                apply_calls(c2, Category::Assets, seq![resource_call(root, assets)])
            } else {
                c2
            };
            &&& planned(root, translations, c3.translations, translation_call(root))
                == Seq::<CallView>::empty()
            &&& planned(root, forms, c3.ui, form_call(root)) == Seq::<CallView>::empty()
            &&& !any_stale(root, assets, c3.assets)
        }),
{
    let t_calls = planned(root, translations, cache.translations, translation_call(root));
    let c1 = apply_calls(cache, Category::Translations, t_calls);
    let u_calls = planned(root, forms, c1.ui, form_call(root));
    let c2 = apply_calls(c1, Category::Ui, u_calls);
    let c3 = if any_stale(root, assets, c2.assets) {
        apply_calls(c2, Category::Assets, seq![resource_call(root, assets)])
    } else {
        c2
    };
    assert(records_own_entry(root, translation_call(root)));
    assert(records_own_entry(root, form_call(root)));
    lemma_second_run_plans_nothing(
        root,
        translations,
        cache,
        Category::Translations,
        translation_call(root),
    );
    lemma_second_run_plans_nothing(root, forms, c1, Category::Ui, form_call(root));
    lemma_apply_calls_frame(c1, Category::Ui, u_calls, Category::Translations);
    assert(c1.get(Category::Ui) == c1.ui);
    if any_stale(root, assets, c2.assets) {
        let one = seq![resource_call(root, assets)];
        lemma_apply_calls_frame(c2, Category::Assets, one, Category::Translations);
        lemma_apply_calls_frame(c2, Category::Assets, one, Category::Ui);
        assert(one.drop_last() =~= Seq::<CallView>::empty());
        assert(apply_calls(c2, Category::Assets, one.drop_last()) == c2);
        assert(one.last() == resource_call(root, assets));
        assert(c3 == record_all(c2, Category::Assets, asset_records(root, assets)));
        lemma_asset_records_settle(root, assets, c2);
        assert forall|i: int| 0 <= i < assets.len() implies !stale_file(
            root,
            c3.assets,
            #[trigger] assets[i],
        ) by {}
    }
}

} // verus!
