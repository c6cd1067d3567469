use vstd::prelude::*;
use vstd::string::*;

use crate::cache::{Cache, Category};
use crate::errcode::{Errcode, GeneralErrorKind};
use crate::paths::{child, copy_path, is_under, join_from, join_slash, parts_view, path_is_under, relative, PathView};
use crate::stage::{
    calls_view, dirs_view, file_key, files_view, key_of, records_view, stale_file, ArgView, Arg, CallView,
    FileView, Manifest, SourceFile, StagePlan, ToolCall,
};
use crate::ui::resources_root;

verus! {

/// Where the assets live: `<root>/assets`.
pub open spec fn assets_root(root: PathView) -> PathView {
    root.push("assets"@)
}

/// An asset can be listed when it lies below `<root>/assets`.
pub open spec fn asset_derivable(root: PathView, f: FileView) -> bool {
    assets_root(root).len() < f.path.len() && is_under(assets_root(root), f.path)
}

/// The alias of an asset: its path below `<root>/assets`, joined with `/`.
pub open spec fn alias_of(root: PathView, f: FileView) -> Seq<char> {
    join_slash(relative(assets_root(root), f.path))
}

pub open spec fn manifest_header() -> Seq<char> {
    "<!DOCTYPE RCC>\n<RCC version=\"1.0\">\n  <qresource>"@
}

pub open spec fn manifest_footer() -> Seq<char> {
    "</qresource>\n</RCC>"@
}

/// One manifest entry: the alias, and the asset's location relative to the
/// resources directory.
pub open spec fn manifest_entry(alias: Seq<char>) -> Seq<char> {
    "  <file alias=\""@ + alias + "\">../assets/"@ + alias + "</file>"@
}

pub open spec fn manifest_entries(root: PathView, files: Seq<FileView>) -> Seq<char>
    decreases files.len(),
{
    if files.len() == 0 {
        Seq::empty()
    } else {
        manifest_entries(root, files.drop_last()) + manifest_entry(alias_of(root, files.last()))
    }
}

/// The resource manifest listing every asset in order.
pub open spec fn manifest_text(root: PathView, files: Seq<FileView>) -> Seq<char> {
    manifest_header() + manifest_entries(root, files) + manifest_footer()
}

/// The entries recorded once the resource compiler has succeeded: every
/// asset, in order, at its current fingerprint.
pub open spec fn asset_records(root: PathView, files: Seq<FileView>) -> Seq<(Seq<char>, u64)>
    decreases files.len(),
{
    if files.len() == 0 {
        Seq::empty()
    } else {
        asset_records(root, files.drop_last()).push(
            (file_key(root, files.last().path), files.last().fingerprint),
        )
    }
}

/// Whether any asset changed since it was last recorded.
pub open spec fn any_stale(root: PathView, files: Seq<FileView>, m: Map<Seq<char>, u64>) -> bool {
    exists|i: int| 0 <= i < files.len() && stale_file(root, m, #[trigger] files[i])
}

pub open spec fn manifest_path(root: PathView) -> PathView {
    resources_root(root).push("assets.qrc"@)
}

/// `<resource compiler> <root>/resources/assets.qrc -o <root>/resources/resource.py`
/// Once it has succeeded, every asset is recorded at its current fingerprint.
pub open spec fn resource_call(root: PathView, files: Seq<FileView>) -> CallView {
    CallView {
        args: seq![
            ArgView::Path(manifest_path(root)),
            ArgView::Text("-o"@),
            ArgView::Path(resources_root(root).push("resource.py"@)),
        ],
        records: asset_records(root, files),
    }
}

/// The package markers to create after compiling resources: `__init__.py`
/// in the resources directory and in each of its subdirectories.
pub fn touch_init_py(resources_dir: &Vec<String>, subdirs: &Vec<Vec<String>>) -> (r: Vec<
    Vec<String>,
>)
    ensures
        dirs_view(r@) == seq![parts_view(resources_dir@).push("__init__.py"@)] + init_files(
            dirs_view(subdirs@),
        ),
{
    let mut r: Vec<Vec<String>> = Vec::new();
    r.push(child(resources_dir, String::from_str("__init__.py")));
    let mut i: usize = 0;
    while i < subdirs.len()
        invariant
            i <= subdirs@.len(),
            dirs_view(r@) == seq![parts_view(resources_dir@).push("__init__.py"@)] + init_files(
                dirs_view(subdirs@).take(i as int),
            ),
        decreases subdirs@.len() - i,
    {
        let ghost before = dirs_view(r@);
        r.push(child(&subdirs[i], String::from_str("__init__.py")));
        proof {
            let d = dirs_view(subdirs@);
            assert(d.take(i + 1).drop_last() =~= d.take(i as int));
            assert(dirs_view(r@) =~= before.push(d[i as int].push("__init__.py"@)));
            assert(dirs_view(r@) =~= seq![parts_view(resources_dir@).push("__init__.py"@)]
                + init_files(d.take(i + 1)));
        }
        i = i + 1;
    }
    assert(dirs_view(subdirs@).take(subdirs@.len() as int) =~= dirs_view(subdirs@));
    r
}

pub open spec fn init_files(dirs: Seq<PathView>) -> Seq<PathView>
    decreases dirs.len(),
{
    if dirs.len() == 0 {
        Seq::empty()
    } else {
        init_files(dirs.drop_last()).push(dirs.last().push("__init__.py"@))
    }
}

/// Plans the resource compilation: all assets as one unit, redone when any
/// of them is stale.
pub fn compile_resources(root: &Vec<String>, files: &Vec<SourceFile>, cache: &Cache) -> (r: Result<
    StagePlan,
    Errcode,
>)
    requires
        cache.wf(),
    ensures
        files@.len() == 0 ==> (r matches Ok(p) && p.is_noop()),
        r is Err <==> exists|i: int|
            0 <= i < files@.len() && !asset_derivable(
                parts_view(root@),
                #[trigger] files_view(files@)[i],
            ),
        r is Err ==> r == Err::<StagePlan, Errcode>(
            Errcode::GeneralError(GeneralErrorKind::FileNameInvalid),
        ),
        r matches Ok(p) ==> !any_stale(parts_view(root@), files_view(files@), cache@.assets)
            ==> p.is_noop(),
        r matches Ok(p) ==> any_stale(parts_view(root@), files_view(files@), cache@.assets) ==> {
            &&& p.category == Category::Assets
            &&& dirs_view(p.create_dirs@) == seq![resources_root(parts_view(root@))]
            &&& p.manifest matches Some(m) && parts_view(m.path@) == manifest_path(
                parts_view(root@),
            ) && m.text@ == manifest_text(parts_view(root@), files_view(files@))
            &&& calls_view(p.calls@) == seq![
                resource_call(parts_view(root@), files_view(files@)),
            ]
        },
{
    if files.len() == 0 {
        return Ok(StagePlan::empty(Category::Assets));
    }
    let ghost rv = parts_view(root@);
    let ghost fv = files_view(files@);
    let assets_dir = child(root, String::from_str("assets"));
    let mut entries = String::new();
    let mut records: Vec<(String, u64)> = Vec::new();
    let mut changed = false;
    let ghost m = cache@.assets;
    let mut i: usize = 0;
    while i < files.len()
        invariant
            cache.wf(),
            rv == parts_view(root@),
            fv == files_view(files@),
            parts_view(assets_dir@) == assets_root(rv),
            i <= files@.len(),
            forall|j: int| 0 <= j < i ==> asset_derivable(rv, #[trigger] fv[j]),
            entries@ == manifest_entries(rv, fv.take(i as int)),
            m == cache@.assets,
            records_view(records@) == asset_records(rv, fv.take(i as int)),
            changed == any_stale(rv, fv.take(i as int), m),
        decreases files@.len() - i,
    {
        let f = &files[i];
        assert(fv[i as int] == f@);
        if f.path.len() <= assets_dir.len() || !path_is_under(&assets_dir, &f.path) {
            return Err(Errcode::GeneralError(GeneralErrorKind::FileNameInvalid));
        }
        proof {
            assert(parts_view(f.path@).subrange(0, rv.len() as int) =~= parts_view(
                f.path@,
            ).subrange(0, assets_root(rv).len() as int).subrange(0, rv.len() as int));
        }
        let alias = join_from(&f.path, assets_dir.len());
        let key = key_of(root, &f.path);
        let ghost prev = fv.take(i as int);
        let ghost next = fv.take(i + 1);
        assert(next.drop_last() =~= prev);
        assert(next.last() == f@);
        assert(alias@ == alias_of(rv, f@));
        entries.append("  <file alias=\"");
        entries.append(alias.as_str());
        entries.append("\">../assets/");
        entries.append(alias.as_str());
        entries.append("</file>");
        assert(entries@ =~= manifest_entries(rv, next));
        if cache.is_stale(Category::Assets, &key, f.fingerprint) {
            changed = true;
        }
        proof {
            if stale_file(rv, m, f@) {
                assert(stale_file(rv, m, next[i as int]));
            } else if changed {
                let w = choose|w: int| 0 <= w < prev.len() && stale_file(rv, m, #[trigger] prev[w]);
                assert(next[w] == prev[w]);
            } else {
                assert forall|w: int| 0 <= w < next.len() implies !stale_file(
                    rv,
                    m,
                    #[trigger] next[w],
                ) by {
                    if w < i {
                        assert(next[w] == prev[w]);
                    }
                }
            }
        }
        let ghost before = records_view(records@);
        records.push((key, f.fingerprint));
        assert(records_view(records@) =~= before.push((file_key(rv, f@.path), f.fingerprint)));
        i = i + 1;
    }
    assert(fv.take(files@.len() as int) =~= fv);
    if !changed {
        return Ok(StagePlan::empty(Category::Assets));
    }
    let res_dir = child(root, String::from_str("resources"));
    let mut text = String::from_str("<!DOCTYPE RCC>\n<RCC version=\"1.0\">\n  <qresource>");
    text.append(entries.as_str());
    text.append("</qresource>\n</RCC>");
    let qrc = child(&res_dir, String::from_str("assets.qrc"));
    let args = vec![
        Arg::Path(copy_path(&qrc)),
        Arg::Text(String::from_str("-o")),
        Arg::Path(child(&res_dir, String::from_str("resource.py"))),
    ];
    let call = ToolCall { args, records };
    proof {
        assert(call@.args =~= resource_call(rv, fv).args);
        assert(call@.records =~= resource_call(rv, fv).records);
    }
    let mut calls: Vec<ToolCall> = Vec::new();
    calls.push(call);
    assert(calls_view(calls@) =~= seq![resource_call(rv, fv)]);
    let mut dirs: Vec<Vec<String>> = Vec::new();
    dirs.push(res_dir);
    assert(dirs_view(dirs@) =~= seq![resources_root(rv)]);
    Ok(
        StagePlan {
            category: Category::Assets,
            create_dirs: dirs,
            manifest: Some(Manifest { path: qrc, text }),
            calls,
        },
    )
}

} // verus!
