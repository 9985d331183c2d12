use phpmd_lsp::analyzer::DEFAULT_RULESETS;
use phpmd_lsp::extension::{
    archive_extension, archive_name, get_platform_binary_name, path_in, release_url, select_rulesets,
    version_dir, Architecture, Os, PhpmdLspServer, RulesetSetting, PHPMD_CONFIG_FILES, VERSION,
};

#[test]
fn test_phpmd_config_file_detection() {
    let config_files = vec![
        ".phpmd.xml",
        "phpmd.xml",
        ".phpmd.xml.dist",
        "phpmd.xml.dist",
        "ruleset.xml",
    ];

    for file in config_files {
        assert!(PHPMD_CONFIG_FILES.contains(&file));
    }
}

#[test]
fn test_platform_binary_name_generation() {
    assert_eq!(get_platform_binary_name(Os::Mac, Architecture::Aarch64), "phpmd-lsp-server-macos-arm64");
    assert_eq!(get_platform_binary_name(Os::Mac, Architecture::X8664), "phpmd-lsp-server-macos-x64");
    assert_eq!(get_platform_binary_name(Os::Linux, Architecture::X8664), "phpmd-lsp-server-linux-x64");
    assert_eq!(get_platform_binary_name(Os::Linux, Architecture::Aarch64), "phpmd-lsp-server-linux-arm64");
    assert_eq!(get_platform_binary_name(Os::Windows, Architecture::X8664), "phpmd-lsp-server-windows-x64.exe");
}

#[test]
fn test_version_constant() {
    assert!(!VERSION.is_empty());
    assert!(VERSION.len() > 0);

    let parts: Vec<&str> = VERSION.split('.').collect();
    assert!(parts.len() >= 2);
}

#[test]
fn test_language_server_id() {
    assert_eq!(PhpmdLspServer::LANGUAGE_SERVER_ID, "phpmd");
}

#[test]
fn test_default_ruleset_configuration() {
    let default_ruleset = DEFAULT_RULESETS;

    assert!(default_ruleset.contains("cleancode"));
    assert!(default_ruleset.contains("codesize"));
    assert!(default_ruleset.contains("controversial"));
    assert!(default_ruleset.contains("design"));
    assert!(default_ruleset.contains("naming"));
    assert!(default_ruleset.contains("unusedcode"));
    assert_eq!(default_ruleset, "cleancode,codesize,controversial,design,naming,unusedcode");
}

#[test]
fn binary_names_of_other_architectures() {
    assert_eq!(get_platform_binary_name(Os::Windows, Architecture::Aarch64), "phpmd-lsp-server-windows-arm64.exe");
    assert_eq!(get_platform_binary_name(Os::Windows, Architecture::X86), "phpmd-lsp-server.exe");
    assert_eq!(get_platform_binary_name(Os::Mac, Architecture::X86), "phpmd-lsp-server");
    assert_eq!(get_platform_binary_name(Os::Linux, Architecture::X86), "phpmd-lsp-server");
}

#[test]
fn new_server_has_no_binary() {
    assert!(PhpmdLspServer::new().cached_binary_path.is_none());
}

#[test]
fn release_paths() {
    assert_eq!(version_dir(), format!("phpmd-{}", VERSION));
    assert_eq!(path_in("phpmd-0.3.0", "phpmd.phar"), "phpmd-0.3.0/phpmd.phar");
    assert_eq!(archive_extension(Os::Windows), "zip");
    assert_eq!(archive_extension(Os::Linux), "tar.gz");
    assert_eq!(archive_name("phpmd.phar", "tar.gz"), "phpmd.phar.tar.gz");
    assert_eq!(
        release_url("phpmd.phar.tar.gz"),
        format!("https://github.com/GeneaLabs/zed-phpmd-lsp/releases/download/{}/phpmd.phar.tar.gz", VERSION)
    );
}

#[test]
fn config_file_wins_over_settings() {
    let setting = RulesetSetting::Text("naming".to_string());
    let r = select_rulesets(Some("/w/phpmd.xml".to_string()), &setting, Some("design".to_string()));
    assert_eq!(r, "/w/phpmd.xml");
}

#[test]
fn text_setting_then_environment_then_default() {
    assert_eq!(select_rulesets(None, &RulesetSetting::Text("naming".to_string()), None), "naming");
    assert_eq!(
        select_rulesets(None, &RulesetSetting::Text("   ".to_string()), Some("design".to_string())),
        "design"
    );
    assert_eq!(select_rulesets(None, &RulesetSetting::Absent, Some(" \t".to_string())), DEFAULT_RULESETS);
    assert_eq!(select_rulesets(None, &RulesetSetting::Other, None), DEFAULT_RULESETS);
}

#[test]
fn list_setting_joins_non_blank_entries() {
    let list = RulesetSetting::List(vec!["naming".to_string(), " ".to_string(), "design".to_string()]);
    assert_eq!(select_rulesets(None, &list, None), "naming,design");
    let empty = RulesetSetting::List(vec!["".to_string(), "  ".to_string()]);
    assert_eq!(select_rulesets(None, &empty, Some("codesize".to_string())), "codesize");
}
