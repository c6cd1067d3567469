use vstd::prelude::*;
use vstd::string::*;

use crate::cache::{Cache, Category, FingerprintMap};
use crate::errcode::{Errcode, GeneralErrorKind};
use crate::paths::{
    child, copy_path, copy_string, file_stem, has_stem, is_under, parts_view, path_is_under, rebase, relative,
    stem_of, PathView,
};
use crate::stage::{
    calls_view, dirs_view, file_key, files_view, effective, key_of, lemma_effective_insert, planned, stale_file, stale_in_sweep, sweep, Arg, ArgView,
    CallView, FileView, SourceFile, StagePlan, ToolCall,
};

verus! {

/// Where the forms live: `<root>/ui`.
pub open spec fn ui_root(root: PathView) -> PathView {
    root.push("ui"@)
}

/// Where generated code goes: `<root>/resources`.
pub open spec fn resources_root(root: PathView) -> PathView {
    root.push("resources"@)
}

/// A form can be converted when it lies below `<root>/ui` and has a stem.
pub open spec fn form_derivable(root: PathView, f: FileView) -> bool {
    ui_root(root).len() < f.path.len() && is_under(ui_root(root), f.path) && has_stem(f.path)
}

/// The directory of the generated code: the form's directory below
/// `<root>/ui`, placed below `<root>/resources`.
pub open spec fn form_out_dir(root: PathView, f: FileView) -> PathView {
    resources_root(root) + relative(ui_root(root), f.path).drop_last()
}

/// `<ui compiler> <form> -o <root>/resources/<subdirs>/<stem>_ui.py`
pub open spec fn form_call(root: PathView) -> spec_fn(FileView) -> CallView {
    |f: FileView|
        CallView {
            args: seq![
                ArgView::Path(f.path),
                ArgView::Text("-o"@),
                ArgView::Path(form_out_dir(root, f).push(stem_of(f.path.last()) + "_ui.py"@)),
            ],
            records: seq![(file_key(root, f.path), f.fingerprint)],
        }
}

/// The directories the stage creates: the resources root, then the output
/// directory of each form.
pub open spec fn form_dirs(root: PathView, files: Seq<FileView>) -> Seq<PathView> {
    seq![resources_root(root)] + form_out_dirs(root, files)
}

pub open spec fn form_out_dirs(root: PathView, files: Seq<FileView>) -> Seq<PathView>
    decreases files.len(),
{
    if files.len() == 0 {
        Seq::empty()
    } else {
        form_out_dirs(root, files.drop_last()).push(form_out_dir(root, files.last()))
    }
}

/// Plans the conversion of the stale forms. Without a `<root>/ui` directory
/// (`ui_dir_present` false) there is nothing to convert.
pub fn convert_ui_files(
    root: &Vec<String>,
    ui_dir_present: bool,
    files: &Vec<SourceFile>,
    cache: &Cache,
) -> (r: Result<StagePlan, Errcode>)
    requires
        cache.wf(),
    ensures
        (files@.len() == 0 || !ui_dir_present) ==> (r matches Ok(p) && p.is_noop()),
        r is Err <==> (ui_dir_present && exists|i: int|
            0 <= i < files@.len() && !form_derivable(parts_view(root@), #[trigger] files_view(files@)[i])),
        r is Err ==> r == Err::<StagePlan, Errcode>(
            Errcode::GeneralError(GeneralErrorKind::FileNameInvalid),
        ),
        r matches Ok(p) ==> ui_dir_present && files@.len() > 0 ==> {
            &&& p.category == Category::Ui
            &&& dirs_view(p.create_dirs@) == form_dirs(parts_view(root@), files_view(files@))
            &&& p.manifest is None
            &&& calls_view(p.calls@) == planned(
                parts_view(root@),
                files_view(files@),
                cache@.ui,
                form_call(parts_view(root@)),
            )
        },
{
    if !ui_dir_present || files.len() == 0 {
        return Ok(StagePlan::empty(Category::Ui));
    }
    let ghost rv = parts_view(root@);
    let ghost fv = files_view(files@);
    let ui_dir = child(root, String::from_str("ui"));
    let res_dir = child(root, String::from_str("resources"));
    let mut dirs: Vec<Vec<String>> = Vec::new();
    dirs.push(copy_path(&res_dir));
    let mut calls: Vec<ToolCall> = Vec::new();
    let mut pending = FingerprintMap::new();
    let mut i: usize = 0;
    assert(dirs_view(dirs@) =~= form_dirs(rv, fv.take(0)));
    while i < files.len()
        invariant
            ui_dir_present,
            cache.wf(),
            pending.wf(),
            sweep(rv, fv.take(i as int), cache@.ui) == effective(cache@.ui, pending@),
            rv == parts_view(root@),
            fv == files_view(files@),
            parts_view(ui_dir@) == ui_root(rv),
            parts_view(res_dir@) == resources_root(rv),
            i <= files@.len(),
            forall|j: int| 0 <= j < i ==> form_derivable(rv, #[trigger] fv[j]),
            dirs_view(dirs@) == form_dirs(rv, fv.take(i as int)),
            calls_view(calls@) == planned(rv, fv.take(i as int), cache@.ui, form_call(rv)),
        decreases files@.len() - i,
    {
        let f = &files[i];
        assert(fv[i as int] == f@);
        if f.path.len() <= ui_dir.len() || !path_is_under(&ui_dir, &f.path) {
            return Err(Errcode::GeneralError(GeneralErrorKind::FileNameInvalid));
        }
        let stem = match file_stem(&f.path) {
            Some(s) => s,
            None => {
                return Err(Errcode::GeneralError(GeneralErrorKind::FileNameInvalid));
            },
        };
        proof {
            assert(parts_view(f.path@).subrange(0, rv.len() as int) =~= parts_view(
                f.path@,
            ).subrange(0, ui_root(rv).len() as int).subrange(0, rv.len() as int));
        }
        let key = key_of(root, &f.path);
        let out_dir = rebase(&res_dir, &f.path, ui_dir.len(), f.path.len() - 1);
        assert(parts_view(out_dir@) =~= form_out_dir(rv, f@));
        assert(fv.take(i + 1).drop_last() =~= fv.take(i as int));
        let ghost old_pending = pending@;
        assert(fv.take(i + 1).last() == f@);
        if stale_in_sweep(cache, Category::Ui, &pending, &key, f.fingerprint) {
            pending.insert(copy_string(&key), f.fingerprint);
            proof {
                lemma_effective_insert(cache@.ui, old_pending, key@, f.fingerprint);
            }
            let mut name = stem;
            name.append("_ui.py");
            let out = child(&out_dir, name);
            let args = vec![Arg::Path(copy_path(&f.path)), Arg::Text(String::from_str("-o")), Arg::Path(out)];
            let records = vec![(key, f.fingerprint)];
            let call = ToolCall { args, records };
            proof {
                assert(call@.args =~= form_call(rv)(f@).args);
                assert(call@.records =~= form_call(rv)(f@).records);
            }
            calls.push(call);
            proof {
                assert(calls_view(calls@) =~= planned(rv, fv.take(i + 1), cache@.ui, form_call(rv)));
            }
        } else {
            assert(!stale_file(rv, sweep(rv, fv.take(i as int), cache@.ui), f@));
        }
        let ghost before = dirs_view(dirs@);
        dirs.push(out_dir);
        proof {
            assert(fv.take(i + 1).last() == f@);
            assert(dirs_view(dirs@) =~= before.push(form_out_dir(rv, f@)));
            assert(dirs_view(dirs@) =~= form_dirs(rv, fv.take(i + 1)));
        }
        i = i + 1;
    }
    assert(fv.take(files@.len() as int) =~= fv);
    Ok(StagePlan { category: Category::Ui, create_dirs: dirs, manifest: None, calls })
}

} // verus!
