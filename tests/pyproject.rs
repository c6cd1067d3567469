use pyside_cli::errcode::{Errcode, GeneralErrorKind};
use pyside_cli::pyproject::{host_platform_key, OptionValue, PyProjectConfig};

fn s(x: &str) -> String {
    x.to_string()
}

fn entry(key: &str, value: OptionValue) -> (String, OptionValue) {
    (s(key), value)
}

/// `[tool.pyside-cli]` with two plain options and one table per platform.
fn platform_config() -> PyProjectConfig {
    PyProjectConfig::from_sections(
        Vec::new(),
        vec![
            entry("onefile", OptionValue::Bool(true)),
            entry("standalone", OptionValue::Bool(true)),
            entry("win32", OptionValue::Table(vec![entry("windows-flag", OptionValue::Bool(true))])),
            entry("linux", OptionValue::Table(vec![entry("linux-flag", OptionValue::Bool(true))])),
            entry("darwin", OptionValue::Table(vec![entry("macos-flag", OptionValue::Bool(true))])),
        ],
    )
}

#[test]
fn test_parsing_pyproject_i18n() {
    let config = PyProjectConfig::from_sections(
        Vec::new(),
        vec![entry(
            "i18n",
            OptionValue::Table(vec![entry(
                "languages",
                OptionValue::List(vec![OptionValue::Str(s("en_US")), OptionValue::Str(s("zh_CN"))]),
            )]),
        )],
    );
    let languages = config.get_languages();
    assert_eq!(languages, &["en_US", "zh_CN"]);
}

#[test]
fn test_extra_nuitka_options_platforms() {
    let config = platform_config();
    let windows_options = config.get_extra_nuitka_options_for_platform(&s("windows"));
    assert!(
        windows_options.contains(&"--windows-flag".to_string()),
        "Windows options missing"
    );

    let linux_options = config.get_extra_nuitka_options_for_platform(&s("linux"));
    assert!(
        linux_options.contains(&"--linux-flag".to_string()),
        "Linux options missing"
    );

    let macos_options = config.get_extra_nuitka_options_for_platform(&s("darwin"));
    assert!(
        macos_options.contains(&"--macos-flag".to_string()),
        "MacOS options missing"
    );
}

#[test]
fn global_options_come_before_platform_options() {
    let config = platform_config();
    let opts = config.get_extra_nuitka_options_for_platform(&s("windows"));
    assert_eq!(opts, vec!["--onefile", "--standalone", "--windows-flag"]);
    let mac = config.get_extra_nuitka_options_for_platform(&s("macos"));
    assert_eq!(mac, vec!["--onefile", "--standalone", "--macos-flag"]);
    let other = config.get_extra_nuitka_options_for_platform(&s("freebsd"));
    assert_eq!(other, vec!["--onefile", "--standalone"]);
}

#[test]
fn flatten_each_kind_of_value() {
    let entries = vec![
        entry("onefile", OptionValue::Bool(true)),
        entry("disabled", OptionValue::Bool(false)),
        entry("company-name", OptionValue::Str(s("Acme"))),
        entry(
            "include-package",
            OptionValue::List(vec![
                OptionValue::Str(s("a")),
                OptionValue::Bool(true),
                OptionValue::Str(s("b")),
            ]),
        ),
        entry("empty", OptionValue::List(Vec::new())),
        entry("ignored", OptionValue::Other),
    ];
    let flags = PyProjectConfig::flatten_backend_options(&entries);
    assert_eq!(
        flags,
        vec![
            "--onefile",
            "--company-name=Acme",
            "--include-package=a,b",
            "--empty=",
        ]
    );
}

#[test]
fn platform_keys() {
    assert_eq!(host_platform_key(&s("windows")), "win32");
    assert_eq!(host_platform_key(&s("macos")), "darwin");
    assert_eq!(host_platform_key(&s("linux")), "linux");
}

#[test]
fn target_lookup() {
    let config = PyProjectConfig::new(
        vec![(s("App"), s("app")), (s("Tool"), s("tools/tool"))],
        Vec::new(),
        Vec::new(),
        Vec::new(),
    );
    assert_eq!(config.target_root(&s("Tool")), Ok(s("tools/tool")));
    assert_eq!(
        config.target_root(&s("Missing")),
        Err(Errcode::GeneralError(GeneralErrorKind::TargetNotFound))
    );
}

#[test]
fn sections_split_into_locales_global_and_platform_options() {
    let config = PyProjectConfig::from_sections(
        vec![entry("App", OptionValue::Str(s("app"))), entry("Bad", OptionValue::Bool(true))],
        vec![
            entry("i18n", OptionValue::Table(vec![entry("languages", OptionValue::List(vec![OptionValue::Str(s("fr_FR"))]))])),
            entry("jobs", OptionValue::Str(s("2"))),
            entry("linux", OptionValue::Table(vec![entry("static", OptionValue::Bool(true))])),
        ],
    );
    assert_eq!(config.scripts, vec![(s("App"), s("app"))]);
    assert_eq!(config.languages, vec![s("fr_FR")]);
    assert_eq!(config.global_options.len(), 1);
    assert_eq!(config.global_options[0].0, "jobs");
    assert_eq!(config.platform_options.len(), 1);
    assert_eq!(config.platform_options[0].0, "linux");
    assert_eq!(
        config.get_extra_nuitka_options_for_platform(&s("linux")),
        vec!["--jobs=2", "--static"]
    );
    let none = PyProjectConfig::from_sections(Vec::new(), Vec::new());
    assert!(none.languages.is_empty() && none.scripts.is_empty());
}
