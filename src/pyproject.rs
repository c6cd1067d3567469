use vstd::prelude::*;
use vstd::string::*;

use crate::errcode::{Errcode, GeneralErrorKind};
use crate::paths::copy_string;

verus! {

/// A value of an extra backend option in the project configuration.
pub enum OptionValue {
    Bool(bool),
    Str(String),
    List(Vec<OptionValue>),
    /// A nested table of options.
    Table(Vec<(String, OptionValue)>),
    /// Any other kind of value; it produces no flag.
    Other,
}

/// The project configuration the pipeline reads: targets, locales, and the
/// extra backend options, global and per platform.
pub struct PyProjectConfig {
    /// Target name and root path, names unique.
    pub scripts: Vec<(String, String)>,
    pub languages: Vec<String>,
    pub global_options: Vec<(String, OptionValue)>,
    /// Platform identifier (`win32`, `linux`, `darwin`, ...) and its options.
    pub platform_options: Vec<(String, Vec<(String, OptionValue)>)>,
}

/// The string elements of a list, in order.
pub open spec fn strings_of(items: Seq<OptionValue>) -> Seq<Seq<char>>
    decreases items.len(),
{
    if items.len() == 0 {
        Seq::empty()
    } else {
        let prev = strings_of(items.drop_last());
        match items.last() {
            OptionValue::Str(s) => prev.push(s@),
            _ => prev,
        }
    }
}

/// The parts joined with `,`.
pub open spec fn join_comma(parts: Seq<Seq<char>>) -> Seq<char>
    decreases parts.len(),
{
    if parts.len() == 0 {
        Seq::empty()
    } else if parts.len() == 1 {
        parts[0]
    } else {
        join_comma(parts.drop_last()) + ","@ + parts.last()
    }
}

/// The flag an option produces: `--key` for true, `--key=value` for a string,
/// `--key=a,b` for a list of strings, nothing otherwise.
pub open spec fn flag_of(key: Seq<char>, v: OptionValue) -> Option<Seq<char>> {
    match v {
        OptionValue::Bool(b) => if b {
            Some("--"@ + key)
        } else {
            None
        },
        OptionValue::Str(s) => Some("--"@ + key + "="@ + s@),
        OptionValue::List(items) => Some("--"@ + key + "="@ + join_comma(strings_of(items@))),
        OptionValue::Table(_) => None,
        OptionValue::Other => None,
    }
}

/// The flags of a table of options, in order.
pub open spec fn flatten(entries: Seq<(String, OptionValue)>) -> Seq<Seq<char>>
    decreases entries.len(),
{
    if entries.len() == 0 {
        Seq::empty()
    } else {
        let prev = flatten(entries.drop_last());
        match flag_of(entries.last().0@, entries.last().1) {
            Some(f) => prev.push(f),
            None => prev,
        }
    }
}

/// The platform identifier the configuration uses for a host OS name.
pub open spec fn platform_key(os: Seq<char>) -> Seq<char> {
    if os == "windows"@ {
        "win32"@
    } else if os == "macos"@ {
        "darwin"@
    } else {
        os
    }
}

/// The position of the first entry named `name`.
pub open spec fn first_index<T>(pairs: Seq<(String, T)>, name: Seq<char>) -> Option<int> {
    if exists|i: int| 0 <= i < pairs.len() && (#[trigger] pairs[i]).0@ == name && forall|j: int|
        0 <= j < i ==> (#[trigger] pairs[j]).0@ != name {
        Some(
            choose|i: int|
                0 <= i < pairs.len() && (#[trigger] pairs[i]).0@ == name && forall|j: int|
                    0 <= j < i ==> (#[trigger] pairs[j]).0@ != name,
        )
    } else {
        None
    }
}

/// The options of the first table for `platform`, or none.
pub open spec fn platform_entries(
    tables: Seq<(String, Vec<(String, OptionValue)>)>,
    platform: Seq<char>,
) -> Seq<(String, OptionValue)> {
    match first_index(tables, platform) {
        Some(i) => tables[i].1@,
        None => Seq::empty(),
    }
}

/// The targets of `[project.scripts]`: the entries whose value is a string.
pub open spec fn script_entries(entries: Seq<(String, OptionValue)>) -> Seq<(Seq<char>, Seq<char>)>
    decreases entries.len(),
{
    if entries.len() == 0 {
        Seq::empty()
    } else {
        let prev = script_entries(entries.drop_last());
        match entries.last().1 {
            OptionValue::Str(s) => prev.push((entries.last().0@, s@)),
            _ => prev,
        }
    }
}

/// The global options of the tool section: every entry but `i18n` whose
/// value is not a table.
pub open spec fn global_entries(section: Seq<(String, OptionValue)>) -> Seq<(String, OptionValue)>
    decreases section.len(),
{
    if section.len() == 0 {
        Seq::empty()
    } else {
        let prev = global_entries(section.drop_last());
        let e = section.last();
        if e.0@ != "i18n"@ && !(e.1 is Table) {
            prev.push(e)
        } else {
            prev
        }
    }
}

/// The platform tables of the tool section: every entry but `i18n` whose
/// value is a table.
pub open spec fn platform_tables(section: Seq<(String, OptionValue)>) -> Seq<
    (String, Vec<(String, OptionValue)>),
>
    decreases section.len(),
{
    if section.len() == 0 {
        Seq::empty()
    } else {
        let prev = platform_tables(section.drop_last());
        let e = section.last();
        match e.1 {
            OptionValue::Table(t) => if e.0@ != "i18n"@ {
                prev.push((e.0, t))
            } else {
                prev
            },
            _ => prev,
        }
    }
}

/// The locales: the strings of `languages` in the `i18n` table.
pub open spec fn languages_of(section: Seq<(String, OptionValue)>) -> Seq<Seq<char>> {
    match first_index(section, "i18n"@) {
        Some(i) => match section[i].1 {
            OptionValue::Table(t) => match first_index(t@, "languages"@) {
                Some(j) => match t@[j].1 {
                    OptionValue::List(items) => strings_of(items@),
                    _ => Seq::empty(),
                },
                None => Seq::empty(),
            },
            _ => Seq::empty(),
        },
        None => Seq::empty(),
    }
}

pub open spec fn pairs_view(v: Seq<(String, String)>) -> Seq<(Seq<char>, Seq<char>)> {
    v.map_values(|p: (String, String)| (p.0@, p.1@))
}

pub open spec fn strings_view(v: Seq<String>) -> Seq<Seq<char>> {
    v.map_values(|s: String| s@)
}

/// The position of the first entry named `name`, found by a scan.
fn find_first<T>(pairs: &Vec<(String, T)>, name: &String) -> (r: Option<usize>)
    ensures
        match r {
            Some(i) => i < pairs@.len() && pairs@[i as int].0@ == name@ && first_index(pairs@, name@)
                == Some(i as int),
            None => first_index(pairs@, name@) is None,
        },
{
    let mut i: usize = 0;
    while i < pairs.len()
        invariant
            i <= pairs@.len(),
            forall|j: int| 0 <= j < i ==> (#[trigger] pairs@[j]).0@ != name@,
        decreases pairs@.len() - i,
    {
        if pairs[i].0 == *name {
            proof {
                assert(pairs@[i as int].0@ == name@);
                let k = choose|k: int|
                    0 <= k < pairs@.len() && (#[trigger] pairs@[k]).0@ == name@ && forall|j: int|
                        0 <= j < k ==> (#[trigger] pairs@[j]).0@ != name@;
                assert(k == i) by {
                    if k < i {
                    } else if k > i {
                        assert(pairs@[i as int].0@ == name@);
                    }
                }
            }
            return Some(i);
        }
        i = i + 1;
    }
    None
}

/// A copy of the string elements of `items`, in order.
fn string_items(items: &Vec<OptionValue>) -> (r: Vec<String>)
    ensures
        strings_view(r@) == strings_of(items@),
{
    let mut out: Vec<String> = Vec::new();
    let mut i: usize = 0;
    while i < items.len()
        invariant
            i <= items@.len(),
            strings_view(out@) == strings_of(items@.take(i as int)),
        decreases items@.len() - i,
    {
        assert(items@.take(i + 1).drop_last() =~= items@.take(i as int));
        assert(items@.take(i + 1).last() == items@[i as int]);
        let ghost before = strings_view(out@);
        match &items[i] {
            OptionValue::Str(s) => {
                out.push(copy_string(s));
                assert(strings_view(out@) =~= before.push(s@));
            },
            _ => {},
        }
        i = i + 1;
    }
    assert(items@.take(items@.len() as int) =~= items@);
    out
}

/// The locales listed in an `i18n` table.
fn table_languages(t: &Vec<(String, OptionValue)>) -> (r: Vec<String>)
    ensures
        strings_view(r@) == match first_index(t@, "languages"@) {
            Some(j) => match t@[j].1 {
                OptionValue::List(items) => strings_of(items@),
                _ => Seq::empty(),
            },
            None => Seq::<Seq<char>>::empty(),
        },
{
    let key = String::from_str("languages");
    match find_first(t, &key) {
        Some(j) => match &t[j].1 {
            OptionValue::List(items) => string_items(items),
            _ => {
                let r: Vec<String> = Vec::new();
                assert(strings_view(r@) =~= Seq::<Seq<char>>::empty());
                r
            },
        },
        None => {
            let r: Vec<String> = Vec::new();
            assert(strings_view(r@) =~= Seq::<Seq<char>>::empty());
            r
        },
    }
}

/// `--` followed by `key`.
fn dashed(key: &String) -> (r: String)
    ensures
        r@ == "--"@ + key@,
{
    let mut s = String::from_str("--");
    s.append(key.as_str());
    s
}

/// The string elements of `items` joined with `,`.
fn join_strings(items: &Vec<OptionValue>) -> (r: String)
    ensures
        r@ == join_comma(strings_of(items@)),
{
    let mut out = String::new();
    let mut any = false;
    let mut i: usize = 0;
    while i < items.len()
        invariant
            i <= items@.len(),
            out@ == join_comma(strings_of(items@.take(i as int))),
            any == (strings_of(items@.take(i as int)).len() > 0),
        decreases items@.len() - i,
    {
        let ghost prev = strings_of(items@.take(i as int));
        assert(items@.take(i + 1).drop_last() =~= items@.take(i as int));
        assert(items@.take(i + 1).last() == items@[i as int]);
        match &items[i] {
            OptionValue::Str(s) => {
                if any {
                    out.append(",");
                }
                out.append(s.as_str());
                any = true;
                proof {
                    let next = prev.push(s@);
                    assert(next.drop_last() =~= prev);
                    if prev.len() == 0 {
                        assert(out@ =~= next[0]);
                    }
                }
            },
            _ => {},
        }
        i = i + 1;
    }
    assert(items@.take(items@.len() as int) =~= items@);
    out
}

impl PyProjectConfig {
    pub fn new(
        scripts: Vec<(String, String)>,
        languages: Vec<String>,
        global_options: Vec<(String, OptionValue)>,
        platform_options: Vec<(String, Vec<(String, OptionValue)>)>,
    ) -> (r: PyProjectConfig)
        ensures
            r.scripts == scripts,
            r.languages == languages,
            r.global_options == global_options,
            r.platform_options == platform_options,
    {
        PyProjectConfig { scripts, languages, global_options, platform_options }
    }

    /// Reads the configuration from the entries of `[project.scripts]` and of
    /// the tool section: the locales from its `i18n` table, its plain entries
    /// as global options and its other tables as per-platform options.
    pub fn from_sections(
        scripts: Vec<(String, OptionValue)>,
        section: Vec<(String, OptionValue)>,
    ) -> (r: PyProjectConfig)
        ensures
            pairs_view(r.scripts@) == script_entries(scripts@),
            strings_view(r.languages@) == languages_of(section@),
            r.global_options@ == global_entries(section@),
            r.platform_options@ == platform_tables(section@),
    {
        let ghost all_scripts = scripts@;
        let mut scripts = scripts;
        let mut targets: Vec<(String, String)> = Vec::new();
        let ghost mut n: int = 0;
        while scripts.len() > 0
            invariant
                0 <= n <= all_scripts.len(),
                scripts@ == all_scripts.subrange(n, all_scripts.len() as int),
                pairs_view(targets@) == script_entries(all_scripts.take(n)),
            decreases scripts@.len(),
        {
            assert(scripts@.len() == all_scripts.len() - n);
            let (k, v) = scripts.remove(0);
            assert(all_scripts[n] == (k, v));
            assert(all_scripts.take(n + 1).drop_last() =~= all_scripts.take(n));
            let ghost before = pairs_view(targets@);
            match v {
                OptionValue::Str(s) => {
                    targets.push((k, s));
                    assert(pairs_view(targets@) =~= before.push((all_scripts[n].0@, s@)));
                },
                _ => {},
            }
            proof {
                n = n + 1;
            }
            assert(scripts@ =~= all_scripts.subrange(n, all_scripts.len() as int));
        }
        assert(all_scripts.take(n) =~= all_scripts);

        let ghost all = section@;
        let i18n_key = String::from_str("i18n");
        let mut section = section;
        let mut languages: Vec<String> = Vec::new();
        let mut seen = false;
        let mut global: Vec<(String, OptionValue)> = Vec::new();
        let mut platforms: Vec<(String, Vec<(String, OptionValue)>)> = Vec::new();
        let ghost mut i: int = 0;
        while section.len() > 0
            invariant
                0 <= i <= all.len(),
                i18n_key@ == "i18n"@,
                section@ == all.subrange(i, all.len() as int),
                global@ == global_entries(all.take(i)),
                platforms@ == platform_tables(all.take(i)),
                seen == exists|j: int| 0 <= j < i && (#[trigger] all[j]).0@ == "i18n"@,
                seen ==> strings_view(languages@) == languages_of(all),
                !seen ==> languages@.len() == 0,
            decreases section@.len(),
        {
            assert(section@.len() == all.len() - i);
            let (k, v) = section.remove(0);
            assert(all[i] == (k, v));
            assert(all.take(i + 1).drop_last() =~= all.take(i));
            let is_i18n = k == i18n_key;
            if is_i18n && !seen {
                proof {
                    assert(first_index(all, "i18n"@) == Some(i)) by {
                        assert(all[i].0@ == "i18n"@);
                        let w = choose|w: int|
                            0 <= w < all.len() && (#[trigger] all[w]).0@ == "i18n"@ && forall|j: int|
                                0 <= j < w ==> (#[trigger] all[j]).0@ != "i18n"@;
                        if w < i {
                            assert(all[w].0@ == "i18n"@);
                        } else if w > i {
                            assert(all[i].0@ == "i18n"@);
                        }
                    }
                }
                match &v {
                    OptionValue::Table(t) => {
                        languages = table_languages(t);
                    },
                    _ => {
                        assert(strings_view(languages@) =~= languages_of(all));
                    },
                }
                seen = true;
            } else {
                proof {
                    if !is_i18n {
                        assert forall|j: int| 0 <= j < i + 1 && (#[trigger] all[j]).0@ == "i18n"@ implies j < i by {
                            if j == i {
                                assert(all[i].0@ != "i18n"@);
                            }
                        }
                    }
                }
            }
            if !is_i18n {
                match v {
                    OptionValue::Table(t) => {
                        platforms.push((k, t));
                    },
                    other => {
                        global.push((k, other));
                    },
                }
            }
            proof {
                i = i + 1;
            }
            assert(section@ =~= all.subrange(i, all.len() as int));
        }
        assert(all.take(i) =~= all);
        if !seen {
            assert(first_index(all, "i18n"@) is None);
            assert(strings_view(languages@) =~= languages_of(all));
        }
        PyProjectConfig {
            scripts: targets,
            languages,
            global_options: global,
            platform_options: platforms,
        }
    }

    /// The flags of a table of options, in table order.
    pub fn flatten_backend_options(cfg: &Vec<(String, OptionValue)>) -> (r: Vec<String>)
        ensures
            strings_view(r@) == flatten(cfg@),
    {
        let mut opts: Vec<String> = Vec::new();
        Self::append_flags(&mut opts, cfg);
        assert(strings_view(opts@) =~= flatten(cfg@));
        opts
    }

    fn append_flags(opts: &mut Vec<String>, cfg: &Vec<(String, OptionValue)>)
        ensures
            strings_view(final(opts)@) == strings_view(old(opts)@) + flatten(cfg@),
    {
        let ghost start = strings_view(opts@);
        let mut i: usize = 0;
        while i < cfg.len()
            invariant
                i <= cfg@.len(),
                strings_view(opts@) == start + flatten(cfg@.take(i as int)),
            decreases cfg@.len() - i,
        {
            let key = &cfg[i].0;
            let ghost before = strings_view(opts@);
            assert(cfg@.take(i + 1).drop_last() =~= cfg@.take(i as int));
            assert(cfg@.take(i + 1).last() == cfg@[i as int]);
            match &cfg[i].1 {
                OptionValue::Bool(b) => {
                    if *b {
                        opts.push(dashed(key));
                    }
                },
                OptionValue::Str(s) => {
                    let mut f = dashed(key);
                    f.append("=");
                    f.append(s.as_str());
                    opts.push(f);
                },
                OptionValue::List(items) => {
                    let mut f = dashed(key);
                    f.append("=");
                    let joined = join_strings(items);
                    f.append(joined.as_str());
                    opts.push(f);
                },
                _ => {},
            }
            proof {
                match flag_of(cfg@[i as int].0@, cfg@[i as int].1) {
                    Some(fl) => {
                        assert(strings_view(opts@) =~= before.push(fl));
                    },
                    None => {
                        assert(strings_view(opts@) =~= before);
                    },
                }
                assert(strings_view(opts@) =~= start + flatten(cfg@.take(i + 1)));
            }
            i = i + 1;
        }
        assert(cfg@.take(cfg@.len() as int) =~= cfg@);
    }

    /// The extra options for a host OS (as std names it: `windows`, `linux`,
    /// `macos`, ...): the global ones first, then those of the platform.
    pub fn get_extra_nuitka_options_for_platform(&self, platform: &String) -> (r: Vec<String>)
        ensures
            strings_view(r@) == flatten(self.global_options@) + flatten(
                platform_entries(self.platform_options@, platform_key(platform@)),
            ),
    {
        let key = host_platform_key(platform);
        let mut opts: Vec<String> = Vec::new();
        Self::append_flags(&mut opts, &self.global_options);
        match find_first(&self.platform_options, &key) {
            Some(i) => {
                Self::append_flags(&mut opts, &self.platform_options[i].1);
            },
            None => {
                let ghost before = strings_view(opts@);
                assert(before + flatten(Seq::<(String, OptionValue)>::empty()) =~= before);
            },
        }
        assert(strings_view(opts@) =~= flatten(self.global_options@) + flatten(
            platform_entries(self.platform_options@, platform_key(platform@)),
        ));
        opts
    }

    /// The configured locales.
    pub fn get_languages(&self) -> (r: &Vec<String>)
        ensures
            r == &self.languages,
    {
        &self.languages
    }

    /// The root of target `name`; an unknown target is an error.
    pub fn target_root(&self, name: &String) -> (r: Result<String, Errcode>)
        ensures
            match first_index(self.scripts@, name@) {
                Some(i) => 0 <= i < self.scripts@.len() && (r matches Ok(root) && root@
                    == self.scripts@[i].1@),
                None => r == Err::<String, Errcode>(
                    Errcode::GeneralError(GeneralErrorKind::TargetNotFound),
                ),
            },
    {
        match find_first(&self.scripts, name) {
            Some(i) => Ok(copy_string(&self.scripts[i].1)),
            None => Err(Errcode::GeneralError(GeneralErrorKind::TargetNotFound)),
        }
    }
}

/// The platform identifier the configuration uses for a host OS name.
pub fn host_platform_key(os: &String) -> (r: String)
    ensures
        r@ == platform_key(os@),
{
    if *os == String::from_str("windows") {
        String::from_str("win32")
    } else if *os == String::from_str("macos") {
        String::from_str("darwin")
    } else {
        copy_string(os)
    }
}

} // verus!
