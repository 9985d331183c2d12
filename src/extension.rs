//! The editor extension's decisions: which server binary fits the
//! platform, where releases live, and which rulesets the server gets.
use vstd::prelude::*;
use crate::analyzer::{string_views, DEFAULT_RULESETS};
use crate::text::{blank, chars_of, concat_text, is_blank, owned, string_of};

verus! {

/// Configuration files the extension looks for in a worktree's root.
pub const PHPMD_CONFIG_FILES: [&'static str; 5] = [
    "phpmd.xml",
    "phpmd.xml.dist",
    ".phpmd.xml",
    ".phpmd.xml.dist",
    "ruleset.xml",
];

/// Release of the server binaries and assets this extension fetches.
pub const VERSION: &'static str = "0.3.0";

/// Where release assets are published.
pub const RELEASES: &'static str = "https://github.com/GeneaLabs/zed-phpmd-lsp/releases/download/";

/// The language server that the extension starts, with the binary it
/// found, if any.
pub struct PhpmdLspServer {
    pub cached_binary_path: Option<String>,
}

impl PhpmdLspServer {
    pub const LANGUAGE_SERVER_ID: &'static str = "phpmd";

    pub fn new() -> (r: Self)
        ensures
            r.cached_binary_path is None,
    {
        PhpmdLspServer { cached_binary_path: None }
    }
}

#[derive(Clone, Copy, Debug, PartialEq, Eq, Structural)]
pub enum Os {
    Mac,
    Linux,
    Windows,
}

#[derive(Clone, Copy, Debug, PartialEq, Eq, Structural)]
pub enum Architecture {
    Aarch64,
    X86,
    X8664,
}

/// Name of the server binary built for a platform.
pub open spec fn binary_name_of(os: Os, arch: Architecture) -> Seq<char> {
    match (os, arch) {
        (Os::Windows, Architecture::X8664) => "phpmd-lsp-server-windows-x64.exe"@,
        (Os::Windows, Architecture::Aarch64) => "phpmd-lsp-server-windows-arm64.exe"@,
        (Os::Windows, _) => "phpmd-lsp-server.exe"@,
        (Os::Mac, Architecture::Aarch64) => "phpmd-lsp-server-macos-arm64"@,
        (Os::Mac, Architecture::X8664) => "phpmd-lsp-server-macos-x64"@,
        (Os::Mac, _) => "phpmd-lsp-server"@,
        (Os::Linux, Architecture::X8664) => "phpmd-lsp-server-linux-x64"@,
        (Os::Linux, Architecture::Aarch64) => "phpmd-lsp-server-linux-arm64"@,
        (Os::Linux, _) => "phpmd-lsp-server"@,
    }
}

pub fn get_platform_binary_name(os: Os, arch: Architecture) -> (r: String)
    ensures
        r@ == binary_name_of(os, arch),
{
    match (os, arch) {
        (Os::Windows, Architecture::X8664) => owned("phpmd-lsp-server-windows-x64.exe"),
        (Os::Windows, Architecture::Aarch64) => owned("phpmd-lsp-server-windows-arm64.exe"),
        (Os::Windows, _) => owned("phpmd-lsp-server.exe"),
        (Os::Mac, Architecture::Aarch64) => owned("phpmd-lsp-server-macos-arm64"),
        (Os::Mac, Architecture::X8664) => owned("phpmd-lsp-server-macos-x64"),
        (Os::Mac, _) => owned("phpmd-lsp-server"),
        (Os::Linux, Architecture::X8664) => owned("phpmd-lsp-server-linux-x64"),
        (Os::Linux, Architecture::Aarch64) => owned("phpmd-lsp-server-linux-arm64"),
        (Os::Linux, _) => owned("phpmd-lsp-server"),
    }
}

/// Archive format of release assets: zip on Windows, gzipped tar elsewhere.
pub open spec fn archive_extension_of(os: Os) -> Seq<char> {
    if os == Os::Windows {
        "zip"@
    } else {
        "tar.gz"@
    }
}

pub fn archive_extension(os: Os) -> (r: &'static str)
    ensures
        r@ == archive_extension_of(os),
{
    match os {
        Os::Windows => "zip",
        _ => "tar.gz",
    }
}

/// Directory that holds the assets of this release.
pub fn version_dir() -> (r: String)
    ensures
        r@ == "phpmd-"@ + VERSION@,
{
    concat_text("phpmd-", VERSION)
}

/// Path of `name` inside `dir`.
pub fn path_in(dir: &str, name: &str) -> (r: String)
    ensures
        r@ == dir@ + "/"@ + name@,
{
    let d = concat_text(dir, "/");
    concat_text(d.as_str(), name)
}

/// Name of the archive that carries `name`.
pub fn archive_name(name: &str, extension: &str) -> (r: String)
    ensures
        r@ == name@ + "."@ + extension@,
{
    let n = concat_text(name, ".");
    concat_text(n.as_str(), extension)
}

/// Download address of the asset `archive` of this release.
pub fn release_url(archive: &str) -> (r: String)
    ensures
        r@ == RELEASES@ + VERSION@ + "/"@ + archive@,
{
    let base = concat_text(RELEASES, VERSION);
    path_in(base.as_str(), archive)
}

/// The `rulesets` entry of the user's settings.
pub enum RulesetSetting {
    Absent,
    /// A single text.
    Text(String),
    /// A list; only its text entries are kept.
    List(Vec<String>),
    /// Any other kind of value.
    Other,
}

/// The non-blank entries of `items`, in order.
pub open spec fn non_blank(items: Seq<Seq<char>>) -> Seq<Seq<char>>
    decreases items.len(),
{
    if items.len() == 0 {
        items
    } else if is_blank(items.last()) {
        non_blank(items.drop_last())
    } else {
        non_blank(items.drop_last()).push(items.last())
    }
}

/// `items` separated by commas.
pub open spec fn comma_joined(items: Seq<Seq<char>>) -> Seq<char>
    decreases items.len(),
{
    if items.len() == 0 {
        seq![]
    } else if items.len() == 1 {
        items[0]
    } else {
        comma_joined(items.drop_last()) + seq![','] + items.last()
    }
}

/// What the user's setting names, if it names something.
pub open spec fn setting_choice(s: RulesetSetting) -> Option<Seq<char>> {
    match s {
        RulesetSetting::Text(t) => if is_blank(t@) {
            None
        } else {
            Some(t@)
        },
        RulesetSetting::List(items) => {
            let kept = non_blank(string_views(items@));
            if kept.len() == 0 {
                None
            } else {
                Some(comma_joined(kept))
            }
        },
        _ => None,
    }
}

/// The rulesets handed to the server: a configuration file in the
/// worktree, else the user's setting, else the environment's, else the
/// defaults.
pub open spec fn rulesets_choice(config_file: Option<Seq<char>>, setting: RulesetSetting, env: Option<Seq<char>>) -> Seq<char> {
    if config_file is Some {
        config_file->0
    } else if setting_choice(setting) is Some {
        setting_choice(setting)->0
    } else if env is Some && !is_blank(env->0) {
        env->0
    } else {
        DEFAULT_RULESETS@
    }
}

fn joined_setting(items: &Vec<String>) -> (r: Option<String>)
    ensures
        match r {
            Some(s) => non_blank(string_views(items@)).len() > 0 && s@ == comma_joined(
                non_blank(string_views(items@)),
            ),
            None => non_blank(string_views(items@)).len() == 0,
        },
{
    let mut out: Vec<char> = Vec::new();
    let mut count: usize = 0;
    let mut i: usize = 0;
    while i < items.len()
        invariant
            0 <= i <= items.len(),
            count == non_blank(string_views(items@).take(i as int)).len(),
            out@ == comma_joined(non_blank(string_views(items@).take(i as int))),
            count <= i,
        decreases items.len() - i,
    {
        let ghost sv = string_views(items@);
        assert(sv.take(i + 1).drop_last() =~= sv.take(i as int));
        assert(sv.take(i + 1).last() == items@[i as int]@);
        let item = chars_of(items[i].as_str());
        if !blank(&item) {
            let ghost prev = non_blank(sv.take(i as int));
            let ghost next = prev.push(item@);
            assert(next.drop_last() =~= prev);
            assert(next.last() == item@);
            assert(next.len() == 1 ==> next[0] == item@);
            if count > 0 {
                out.push(',');
            }
            crate::text::extend(&mut out, &item);
            count = count + 1;
        }
        i = i + 1;
    }
    assert(string_views(items@).take(items.len() as int) =~= string_views(items@));
    if count == 0 {
        None
    } else {
        Some(string_of(&out))
    }
}

/// Chooses the rulesets the server gets.
pub fn select_rulesets(config_file: Option<String>, setting: &RulesetSetting, env: Option<String>) -> (r:
    String)
    ensures
        r@ == rulesets_choice(
            match config_file {
                Some(c) => Some(c@),
                None => None,
            },
            *setting,
            match env {
                Some(e) => Some(e@),
                None => None,
            },
        ),
{
    match config_file {
        Some(c) => return c,
        None => {},
    }
    match setting {
        RulesetSetting::Text(t) => {
            if !blank(&chars_of(t.as_str())) {
                return t.clone();
            }
        },
        RulesetSetting::List(items) => {
            match joined_setting(items) {
                Some(j) => return j,
                None => {},
            }
        },
        _ => {},
    }
    match env {
        Some(e) => {
            if !blank(&chars_of(e.as_str())) {
                return e;
            }
        },
        None => {},
    }
    owned(DEFAULT_RULESETS)
}

} // verus!
