use vstd::prelude::*;
use vstd::string::*;

use crate::cache::{Cache, Category, FingerprintMap};
use crate::errcode::{Errcode, GeneralErrorKind};
use crate::paths::{
    child, copy_path, copy_string, file_stem, has_stem, is_under, parts_view, path_is_under, stem_of, PathView,
};
use crate::stage::{
    args_view, calls_view, file_key, files_view, effective, key_of, lemma_effective_insert, planned, stale_file, stale_in_sweep, sweep, dirs_view, Arg, ArgView,
    CallView, FileView, SourceFile, StagePlan, ToolCall,
};

verus! {

/// Where compiled translations go: `<root>/assets/i18n`.
pub open spec fn qm_root(root: PathView) -> PathView {
    root.push("assets"@).push("i18n"@)
}

/// A translation source can be compiled when it lies below the root and has a stem.
pub open spec fn translation_derivable(root: PathView, f: FileView) -> bool {
    root.len() < f.path.len() && is_under(root, f.path) && has_stem(f.path)
}

/// `<release compiler> <source> -qm <root>/assets/i18n/<stem>.qm`
pub open spec fn translation_call(root: PathView) -> spec_fn(FileView) -> CallView {
    |f: FileView|
        CallView {
            args: seq![
                ArgView::Path(f.path),
                ArgView::Text("-qm"@),
                ArgView::Path(qm_root(root).push(stem_of(f.path.last()) + ".qm"@)),
            ],
            records: seq![(file_key(root, f.path), f.fingerprint)],
        }
}

fn qm_root_of(root: &Vec<String>) -> (r: Vec<String>)
    ensures
        parts_view(r@) == qm_root(parts_view(root@)),
{
    let a = child(root, String::from_str("assets"));
    child(&a, String::from_str("i18n"))
}

/// Plans the compilation of the stale translation sources.
pub fn compile_i18n_ts_files(
    root: &Vec<String>,
    files: &Vec<SourceFile>,
    cache: &Cache,
) -> (r: Result<StagePlan, Errcode>)
    requires
        cache.wf(),
    ensures
        files@.len() == 0 ==> (r matches Ok(p) && p.is_noop()),
        r is Err <==> exists|i: int|
            0 <= i < files@.len() && !translation_derivable(
                parts_view(root@),
                #[trigger] files_view(files@)[i],
            ),
        r is Err ==> r == Err::<StagePlan, Errcode>(
            Errcode::GeneralError(GeneralErrorKind::FileNameInvalid),
        ),
        r matches Ok(p) ==> files@.len() > 0 ==> {
            &&& p.category == Category::Translations
            &&& dirs_view(p.create_dirs@) == seq![qm_root(parts_view(root@))]
            &&& p.manifest is None
            &&& calls_view(p.calls@) == planned(
                parts_view(root@),
                files_view(files@),
                cache@.translations,
                translation_call(parts_view(root@)),
            )
        },
{
    if files.len() == 0 {
        return Ok(StagePlan::empty(Category::Translations));
    }
    let ghost rv = parts_view(root@);
    let ghost fv = files_view(files@);
    let out_root = qm_root_of(root);
    let mut calls: Vec<ToolCall> = Vec::new();
    let mut pending = FingerprintMap::new();
    let mut i: usize = 0;
    while i < files.len()
        invariant
            cache.wf(),
            pending.wf(),
            sweep(rv, fv.take(i as int), cache@.translations) == effective(cache@.translations, pending@),
            rv == parts_view(root@),
            fv == files_view(files@),
            parts_view(out_root@) == qm_root(rv),
            i <= files@.len(),
            forall|j: int| 0 <= j < i ==> translation_derivable(rv, #[trigger] fv[j]),
            calls_view(calls@) == planned(
                rv,
                fv.take(i as int),
                cache@.translations,
                translation_call(rv),
            ),
        decreases files@.len() - i,
    {
        let f = &files[i];
        assert(fv[i as int] == f@);
        if f.path.len() <= root.len() || !path_is_under(root, &f.path) {
            return Err(Errcode::GeneralError(GeneralErrorKind::FileNameInvalid));
        }
        let stem = match file_stem(&f.path) {
            Some(s) => s,
            None => {
                return Err(Errcode::GeneralError(GeneralErrorKind::FileNameInvalid));
            },
        };
        let key = key_of(root, &f.path);
        assert(fv.take(i + 1).drop_last() =~= fv.take(i as int));
        let ghost old_pending = pending@;
        assert(fv.take(i + 1).last() == f@);
        if stale_in_sweep(cache, Category::Translations, &pending, &key, f.fingerprint) {
            pending.insert(copy_string(&key), f.fingerprint);
            proof {
                lemma_effective_insert(cache@.translations, old_pending, key@, f.fingerprint);
            }
            let mut name = stem;
            name.append(".qm");
            let out = child(&out_root, name);
            let args = vec![Arg::Path(copy_path(&f.path)), Arg::Text(String::from_str("-qm")), Arg::Path(out)];
            let records = vec![(key, f.fingerprint)];
            let call = ToolCall { args, records };
            proof {
                assert(call@.args =~= translation_call(rv)(f@).args);
                assert(call@.records =~= translation_call(rv)(f@).records);
            }
            calls.push(call);
            proof {
                assert(calls_view(calls@) =~= planned(rv, fv.take(i + 1), cache@.translations, translation_call(rv)));
            }
        } else {
            assert(!stale_file(rv, sweep(rv, fv.take(i as int), cache@.translations), f@));
        }
        i = i + 1;
    }
    assert(fv.take(files@.len() as int) =~= fv);
    let mut dirs: Vec<Vec<String>> = Vec::new();
    dirs.push(out_root);
    assert(dirs_view(dirs@) =~= seq![qm_root(rv)]);
    Ok(StagePlan { category: Category::Translations, create_dirs: dirs, manifest: None, calls })
}

/// Each path as a path argument.
pub open spec fn path_args(paths: Seq<PathView>) -> Seq<ArgView>
    decreases paths.len(),
{
    if paths.len() == 0 {
        Seq::empty()
    } else {
        path_args(paths.drop_last()).push(ArgView::Path(paths.last()))
    }
}

/// The translation source of a language: `<root>/i18n/<language>.ts`.
pub open spec fn ts_path(root: PathView, language: Seq<char>) -> PathView {
    root.push("i18n"@).push(language + ".ts"@)
}

/// `<update tool> -silent -locations absolute -extensions -ui <sources> <forms> -ts <ts file>`
pub open spec fn update_call(
    root: PathView,
    sources: Seq<PathView>,
    forms: Seq<PathView>,
    language: Seq<char>,
) -> CallView {
    CallView {
        args: seq![
            ArgView::Text("-silent"@),
            ArgView::Text("-locations"@),
            ArgView::Text("absolute"@),
            ArgView::Text("-extensions"@),
            ArgView::Text("-ui"@),
        ] + path_args(sources) + path_args(forms) + seq![
            ArgView::Text("-ts"@),
            ArgView::Path(ts_path(root, language)),
        ],
        records: Seq::empty(),
    }
}

pub open spec fn update_calls(
    root: PathView,
    sources: Seq<PathView>,
    forms: Seq<PathView>,
    languages: Seq<Seq<char>>,
) -> Seq<CallView>
    decreases languages.len(),
{
    if languages.len() == 0 {
        Seq::empty()
    } else {
        update_calls(root, sources, forms, languages.drop_last()).push(
            update_call(root, sources, forms, languages.last()),
        )
    }
}

/// Appends each path of `paths` to `args` as a path argument.
fn push_path_args(args: &mut Vec<Arg>, paths: &Vec<Vec<String>>)
    ensures
        args_view(final(args)@) == args_view(old(args)@) + path_args(dirs_view(paths@)),
{
    let ghost start = args_view(args@);
    let mut i: usize = 0;
    while i < paths.len()
        invariant
            i <= paths@.len(),
            args_view(args@) == start + path_args(dirs_view(paths@).take(i as int)),
        decreases paths@.len() - i,
    {
        let ghost before = args_view(args@);
        args.push(Arg::Path(copy_path(&paths[i])));
        proof {
            let d = dirs_view(paths@);
            assert(d.take(i + 1).drop_last() =~= d.take(i as int));
            assert(args_view(args@) =~= before.push(ArgView::Path(d[i as int])));
            assert(args_view(args@) =~= start + path_args(d.take(i + 1)));
        }
        i = i + 1;
    }
    assert(dirs_view(paths@).take(paths@.len() as int) =~= dirs_view(paths@));
}

/// Plans the update of the translation source of every language from the
/// project's sources and forms.
pub fn generate_i18n_ts_files(
    root: &Vec<String>,
    sources: &Vec<Vec<String>>,
    forms: &Vec<Vec<String>>,
    languages: &Vec<String>,
) -> (r: StagePlan)
    ensures
        languages@.len() == 0 ==> r.is_noop(),
        languages@.len() > 0 ==> {
            &&& r.category == Category::Translations
            &&& dirs_view(r.create_dirs@) == seq![parts_view(root@).push("i18n"@)]
            &&& r.manifest is None
            &&& calls_view(r.calls@) == update_calls(
                parts_view(root@),
                dirs_view(sources@),
                dirs_view(forms@),
                parts_view(languages@),
            )
        },
{
    if languages.len() == 0 {
        return StagePlan::empty(Category::Translations);
    }
    let ghost rv = parts_view(root@);
    let ghost lv = parts_view(languages@);
    let i18n_dir = child(root, String::from_str("i18n"));
    let mut calls: Vec<ToolCall> = Vec::new();
    let mut i: usize = 0;
    while i < languages.len()
        invariant
            rv == parts_view(root@),
            lv == parts_view(languages@),
            parts_view(i18n_dir@) == rv.push("i18n"@),
            i <= languages@.len(),
            calls_view(calls@) == update_calls(
                rv,
                dirs_view(sources@),
                dirs_view(forms@),
                lv.take(i as int),
            ),
        decreases languages@.len() - i,
    {
        let mut args: Vec<Arg> = Vec::new();
        args.push(Arg::Text(String::from_str("-silent")));
        args.push(Arg::Text(String::from_str("-locations")));
        args.push(Arg::Text(String::from_str("absolute")));
        args.push(Arg::Text(String::from_str("-extensions")));
        args.push(Arg::Text(String::from_str("-ui")));
        let ghost lead = args_view(args@);
        push_path_args(&mut args, sources);
        push_path_args(&mut args, forms);
        args.push(Arg::Text(String::from_str("-ts")));
        let mut name = copy_string(&languages[i]);
        name.append(".ts");
        args.push(Arg::Path(child(&i18n_dir, name)));
        let call = ToolCall { args, records: Vec::new() };
        let ghost want = update_call(rv, dirs_view(sources@), dirs_view(forms@), lv[i as int]);
        proof {
            assert(lead =~= seq![
                ArgView::Text("-silent"@),
                ArgView::Text("-locations"@),
                ArgView::Text("absolute"@),
                ArgView::Text("-extensions"@),
                ArgView::Text("-ui"@),
            ]);
            assert(call@.args =~= want.args);
            assert(call@.records =~= want.records);
            assert(lv.take(i + 1).drop_last() =~= lv.take(i as int));
        }
        calls.push(call);
        assert(calls_view(calls@) =~= update_calls(
            rv,
            dirs_view(sources@),
            dirs_view(forms@),
            lv.take(i + 1),
        ));
        i = i + 1;
    }
    assert(lv.take(languages@.len() as int) =~= lv);
    let mut dirs: Vec<Vec<String>> = Vec::new();
    dirs.push(i18n_dir);
    assert(dirs_view(dirs@) =~= seq![rv.push("i18n"@)]);
    StagePlan { category: Category::Translations, create_dirs: dirs, manifest: None, calls }
}

} // verus!
