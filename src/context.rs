use vstd::prelude::*;
use vstd::string::*;

use crate::cli::Args;
use crate::paths::{child, copy_path, extension, extension_of, is_under, parts_view, path_is_under, PathView};
use crate::pipeline::Toolchain;
use crate::pyproject::PyProjectConfig;
use crate::stage::dirs_view;

verus! {

/// Where a project file belongs.
#[derive(Clone, Copy, Debug, PartialEq, Eq, Structural)]
pub enum FileClass {
    /// Below `resources` or `test`: generated or test code, never an input.
    Excluded,
    Asset,
    Translation,
    Source,
    Form,
    Other,
}

/// The class of a file below the project root.
pub open spec fn classify(root: PathView, path: PathView) -> FileClass {
    if is_under(root.push("resources"@), path) || is_under(root.push("test"@), path) {
        FileClass::Excluded
    } else if is_under(root.push("assets"@), path) {
        FileClass::Asset
    } else if is_under(root.push("i18n"@), path) {
        FileClass::Translation
    } else if extension_of(path) == Some("py"@) {
        FileClass::Source
    } else if extension_of(path) == Some("ui"@) {
        FileClass::Form
    } else {
        FileClass::Other
    }
}

/// The files of class `class`, in order.
pub open spec fn select(root: PathView, files: Seq<PathView>, class: FileClass) -> Seq<PathView>
    decreases files.len(),
{
    if files.len() == 0 {
        Seq::empty()
    } else {
        let prev = select(root, files.drop_last(), class);
        if classify(root, files.last()) == class {
            prev.push(files.last())
        } else {
            prev
        }
    }
}

/// Everything a run works with: the classified project files, the command
/// line, the toolchain and the project configuration.
pub struct Context {
    pub source_list: Vec<Vec<String>>,
    pub ui_list: Vec<Vec<String>>,
    pub asset_list: Vec<Vec<String>>,
    pub i18n_list: Vec<Vec<String>>,
    pub args: Args,
    pub toolchain: Toolchain,
    pub pyconfig: PyProjectConfig,
}

fn classify_file(root: &Vec<String>, path: &Vec<String>) -> (r: FileClass)
    ensures
        r == classify(parts_view(root@), parts_view(path@)),
{
    let resources = child(root, String::from_str("resources"));
    let test = child(root, String::from_str("test"));
    let assets = child(root, String::from_str("assets"));
    let i18n = child(root, String::from_str("i18n"));
    if path_is_under(&resources, path) || path_is_under(&test, path) {
        FileClass::Excluded
    } else if path_is_under(&assets, path) {
        FileClass::Asset
    } else if path_is_under(&i18n, path) {
        FileClass::Translation
    } else {
        match extension(path) {
            Some(e) => {
                if e == String::from_str("py") {
                    FileClass::Source
                } else if e == String::from_str("ui") {
                    FileClass::Form
                } else {
                    FileClass::Other
                }
            },
            None => FileClass::Other,
        }
    }
}

impl Context {
    /// A context with no files classified yet.
    pub fn new(args: Args, toolchain: Toolchain, pyconfig: PyProjectConfig) -> (r: Context)
        ensures
            r.source_list@.len() == 0,
            r.ui_list@.len() == 0,
            r.asset_list@.len() == 0,
            r.i18n_list@.len() == 0,
            r.args == args,
            r.toolchain == toolchain,
            r.pyconfig == pyconfig,
    {
        Context {
            source_list: Vec::new(),
            ui_list: Vec::new(),
            asset_list: Vec::new(),
            i18n_list: Vec::new(),
            args,
            toolchain,
            pyconfig,
        }
    }

    /// Sorts the files found below `root` into sources, forms, assets and
    /// translation sources, in the order given; excluded and other files are
    /// dropped.
    pub fn glob_files(&mut self, root: &Vec<String>, files: &Vec<Vec<String>>)
        ensures
            dirs_view(final(self).source_list@) == dirs_view(old(self).source_list@) + select(
                parts_view(root@),
                dirs_view(files@),
                FileClass::Source,
            ),
            dirs_view(final(self).ui_list@) == dirs_view(old(self).ui_list@) + select(
                parts_view(root@),
                dirs_view(files@),
                FileClass::Form,
            ),
            dirs_view(final(self).asset_list@) == dirs_view(old(self).asset_list@) + select(
                parts_view(root@),
                dirs_view(files@),
                FileClass::Asset,
            ),
            dirs_view(final(self).i18n_list@) == dirs_view(old(self).i18n_list@) + select(
                parts_view(root@),
                dirs_view(files@),
                FileClass::Translation,
            ),
            final(self).args == old(self).args,
            final(self).toolchain == old(self).toolchain,
            final(self).pyconfig == old(self).pyconfig,
    {
        let ghost rv = parts_view(root@);
        let ghost fv = dirs_view(files@);
        let mut i: usize = 0;
        while i < files.len()
            invariant
                rv == parts_view(root@),
                fv == dirs_view(files@),
                i <= files@.len(),
                dirs_view(self.source_list@) == dirs_view(old(self).source_list@) + select(
                    rv,
                    fv.take(i as int),
                    FileClass::Source,
                ),
                dirs_view(self.ui_list@) == dirs_view(old(self).ui_list@) + select(
                    rv,
                    fv.take(i as int),
                    FileClass::Form,
                ),
                dirs_view(self.asset_list@) == dirs_view(old(self).asset_list@) + select(
                    rv,
                    fv.take(i as int),
                    FileClass::Asset,
                ),
                dirs_view(self.i18n_list@) == dirs_view(old(self).i18n_list@) + select(
                    rv,
                    fv.take(i as int),
                    FileClass::Translation,
                ),
                self.args == old(self).args,
                self.toolchain == old(self).toolchain,
                self.pyconfig == old(self).pyconfig,
            decreases files@.len() - i,
        {
            let path = &files[i];
            let class = classify_file(root, path);
            let ghost next = fv.take(i + 1);
            assert(next.drop_last() =~= fv.take(i as int));
            assert(next.last() == parts_view(path@));
            let ghost s0 = dirs_view(self.source_list@);
            let ghost u0 = dirs_view(self.ui_list@);
            let ghost a0 = dirs_view(self.asset_list@);
            let ghost t0 = dirs_view(self.i18n_list@);
            match class {
                FileClass::Source => self.source_list.push(copy_path(path)),
                FileClass::Form => self.ui_list.push(copy_path(path)),
                FileClass::Asset => self.asset_list.push(copy_path(path)),
                FileClass::Translation => self.i18n_list.push(copy_path(path)),
                _ => {},
            }
            proof {
                let p = parts_view(path@);
                if class == FileClass::Source {
                    assert(dirs_view(self.source_list@) =~= s0.push(p));
                }
                if class == FileClass::Form {
                    assert(dirs_view(self.ui_list@) =~= u0.push(p));
                }
                if class == FileClass::Asset {
                    assert(dirs_view(self.asset_list@) =~= a0.push(p));
                }
                if class == FileClass::Translation {
                    assert(dirs_view(self.i18n_list@) =~= t0.push(p));
                }
                assert(dirs_view(self.source_list@) =~= dirs_view(old(self).source_list@) + select(
                    rv,
                    next,
                    FileClass::Source,
                ));
                assert(dirs_view(self.ui_list@) =~= dirs_view(old(self).ui_list@) + select(
                    rv,
                    next,
                    FileClass::Form,
                ));
                assert(dirs_view(self.asset_list@) =~= dirs_view(old(self).asset_list@) + select(
                    rv,
                    next,
                    FileClass::Asset,
                ));
                assert(dirs_view(self.i18n_list@) =~= dirs_view(old(self).i18n_list@) + select(
                    rv,
                    next,
                    FileClass::Translation,
                ));
            }
            i = i + 1;
        }
        assert(fv.take(files@.len() as int) =~= fv);
    }
}

} // verus!
