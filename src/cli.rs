use vstd::prelude::*;

verus! {

/// The packaging backend.
#[derive(Clone, Copy, Debug, PartialEq, Eq, Structural)]
pub enum Backend {
    Nuitka,
    Pyinstaller,
}

/// The shape of the packaging output.
#[derive(Clone, Copy, Debug, PartialEq, Eq, Structural)]
pub enum Layout {
    Onefile,
    Onedir,
    Bundle,
}

/// The parsed command line.
pub struct Args {
    pub command: Command,
    pub debug: bool,
    pub work_dir: Option<String>,
    pub low_perf: bool,
}

pub enum Command {
    /// Convert rc files and build the app.
    All(BuildOptions),
    /// Build the app.
    Build(BuildOptions),
    /// Generate translation files for all languages.
    I18n(I18nOptions),
    /// Convert rc files to python files.
    Rc(RcOptions),
    /// Run tests.
    Test(TestOptions),
    /// List all available build targets.
    Targets,
    /// Create a project with a name.
    Create { name: String },
}

pub struct BuildOptions {
    pub onefile: bool,
    pub onedir: bool,
    /// Build a platform application bundle.
    pub bundle: bool,
    pub target: Option<String>,
    pub backend: Backend,
    pub no_cache: bool,
    pub backend_args: Vec<String>,
}

pub struct I18nOptions {
    pub target: String,
}

pub struct RcOptions {
    pub target: String,
    pub no_cache: bool,
}

pub struct TestOptions {
    pub backend_args: Vec<String>,
}

impl BuildOptions {
    /// The requested layout: one file, a bundle, or by default a directory.
    pub fn layout(&self) -> (r: Layout)
        ensures
            r == (if self.onefile {
                Layout::Onefile
            } else if self.bundle {
                Layout::Bundle
            } else {
                Layout::Onedir
            }),
    {
        if self.onefile {
            Layout::Onefile
        } else if self.bundle {
            Layout::Bundle
        } else {
            Layout::Onedir
        }
    }
}

} // verus!
