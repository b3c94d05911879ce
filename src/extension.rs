use vstd::prelude::*;

use crate::text::{blank, chars_of, is_blank};

verus! {

/// Operating systems the editor runs on.
#[derive(Debug, Clone, Copy, PartialEq, Eq, Structural)]
pub enum Os {
    Mac,
    Linux,
    Windows,
}

/// Processor architectures the editor runs on.
#[derive(Debug, Clone, Copy, PartialEq, Eq, Structural)]
pub enum Arch {
    Aarch64,
    X86,
    X8664,
}

/// File name of the language server's binary for a platform.
pub open spec fn binary_name_for(os: Os, arch: Arch) -> Seq<char> {
    match (os, arch) {
        (Os::Windows, Arch::X8664) => "phpcs-lsp-server-windows-x64.exe"@,
        (Os::Windows, Arch::Aarch64) => "phpcs-lsp-server-windows-arm64.exe"@,
        (Os::Windows, _) => "phpcs-lsp-server.exe"@,
        (Os::Mac, Arch::Aarch64) => "phpcs-lsp-server-macos-arm64"@,
        (Os::Mac, Arch::X8664) => "phpcs-lsp-server-macos-x64"@,
        (Os::Mac, _) => "phpcs-lsp-server"@,
        (Os::Linux, Arch::X8664) => "phpcs-lsp-server-linux-x64"@,
        (Os::Linux, Arch::Aarch64) => "phpcs-lsp-server-linux-arm64"@,
        (Os::Linux, _) => "phpcs-lsp-server"@,
    }
}

/// The language server as the editor extension launches it.
pub struct PhpcsLspServer {
    /// Where the binary was found last time.
    pub cached_binary_path: Option<String>,
}

impl PhpcsLspServer {
    /// A launcher that has not looked for the binary yet.
    pub fn new() -> (r: Self)
        ensures
            r.cached_binary_path is None,
    {
        PhpcsLspServer { cached_binary_path: None }
    }

    /// File name of the language server's binary for a platform.
    pub fn get_platform_binary_name(os: Os, arch: Arch) -> (r: String)
        ensures
            r@ == binary_name_for(os, arch),
    {
        let name = match (os, arch) {
            (Os::Windows, Arch::X8664) => "phpcs-lsp-server-windows-x64.exe",
            (Os::Windows, Arch::Aarch64) => "phpcs-lsp-server-windows-arm64.exe",
            (Os::Windows, _) => "phpcs-lsp-server.exe",
            (Os::Mac, Arch::Aarch64) => "phpcs-lsp-server-macos-arm64",
            (Os::Mac, Arch::X8664) => "phpcs-lsp-server-macos-x64",
            (Os::Mac, _) => "phpcs-lsp-server",
            (Os::Linux, Arch::X8664) => "phpcs-lsp-server-linux-x64",
            (Os::Linux, Arch::Aarch64) => "phpcs-lsp-server-linux-arm64",
            (Os::Linux, _) => "phpcs-lsp-server",
        };
        String::from_str(name)
    }

    /// Remembers where the binary is.
    pub fn remember_binary_path(&mut self, path: String)
        ensures
            final(self).cached_binary_path matches Some(p) && p@ == path@,
    {
        self.cached_binary_path = Some(path);
    }
}

/// The `standard` member of the user's settings.
pub enum StandardSetting {
    /// No such member.
    Absent,
    /// A single standard.
    Text(String),
    /// Several standards; members that are not strings are `None`.
    List(Vec<Option<String>>),
    /// A value of another kind.
    Other,
}

/// The standards of a list that are strings holding more than white space.
pub open spec fn kept_standards(items: Seq<Option<String>>) -> Seq<Seq<char>>
    decreases items.len(),
{
    if items.len() == 0 {
        Seq::empty()
    } else {
        let rest = kept_standards(items.drop_last());
        match items.last() {
            Some(s) => if !blank(s@) {
                rest.push(s@)
            } else {
                rest
            },
            None => rest,
        }
    }
}

/// The parts joined by commas.
pub open spec fn join_commas(parts: Seq<Seq<char>>) -> Seq<char>
    decreases parts.len(),
{
    if parts.len() == 0 {
        Seq::empty()
    } else if parts.len() == 1 {
        parts[0]
    } else {
        join_commas(parts.drop_last()) + seq![','] + parts.last()
    }
}

/// The standard that a setting names, if it names one.
pub open spec fn setting_standard(setting: StandardSetting) -> Option<Seq<char>> {
    match setting {
        StandardSetting::Text(s) => if !blank(s@) {
            Some(s@)
        } else {
            None
        },
        StandardSetting::List(items) => if kept_standards(items@).len() > 0 {
            Some(join_commas(kept_standards(items@)))
        } else {
            None
        },
        _ => None,
    }
}

/// The standard the extension hands to the language server: a
/// configuration file found in the project, else the one the settings
/// name, else the one of the environment if it holds more than white space.
pub open spec fn chosen_standard(
    config_file: Option<Seq<char>>,
    setting: StandardSetting,
    env: Option<Seq<char>>,
) -> Option<Seq<char>> {
    if config_file is Some {
        config_file
    } else if setting_standard(setting) is Some {
        setting_standard(setting)
    } else if env matches Some(e) && !blank(e) {
        env
    } else {
        None
    }
}

/// The standards of a list joined by commas, if any is kept.
fn join_standards(items: &Vec<Option<String>>) -> (r: Option<String>)
    ensures
        match r {
            Some(s) => kept_standards(items@).len() > 0 && s@ == join_commas(kept_standards(items@)),
            None => kept_standards(items@).len() == 0,
        },
{
    let mut out = String::new();
    let mut any = false;
    let mut i: usize = 0;
    while i < items.len()
        invariant
            i <= items@.len(),
            any == (kept_standards(items@.subrange(0, i as int)).len() > 0),
            out@ == join_commas(kept_standards(items@.subrange(0, i as int))),
        decreases items@.len() - i,
    {
        proof {
            assert(items@.subrange(0, i + 1).drop_last() =~= items@.subrange(0, i as int));
        }
        match &items[i] {
            Some(s) => {
                if !is_blank(&chars_of(s.as_str())) {
                    if any {
                        out.append(",");
                        proof {
                            reveal_strlit(",");
                        }
                    }
                    out.append(s.as_str());
                    any = true;
                    proof {
                        let k = kept_standards(items@.subrange(0, i as int));
                        let grown = kept_standards(items@.subrange(0, i + 1));
                        assert(grown == k.push(s@));
                        assert(grown.drop_last() =~= k);
                        assert(out@ =~= join_commas(grown));
                    }
                }
            },
            None => {},
        }
        i += 1;
    }
    proof {
        assert(items@.subrange(0, items@.len() as int) =~= items@);
    }
    if any {
        Some(out)
    } else {
        None
    }
}

/// The standard to hand to the language server.
pub fn choose_standard(config_file: Option<String>, setting: StandardSetting, env: Option<String>) -> (r: Option<String>)
    ensures
        match r {
            Some(s) => chosen_standard(
                match config_file {
                    Some(c) => Some(c@),
                    None => None,
                },
                setting,
                match env {
                    Some(e) => Some(e@),
                    None => None,
                },
            ) == Some(s@),
            None => chosen_standard(
                match config_file {
                    Some(c) => Some(c@),
                    None => None,
                },
                setting,
                match env {
                    Some(e) => Some(e@),
                    None => None,
                },
            ) is None,
        },
{
    if let Some(c) = config_file {
        return Some(c);
    }
    let from_setting = match &setting {
        StandardSetting::Text(s) => if !is_blank(&chars_of(s.as_str())) {
            Some(s.clone())
        } else {
            None
        },
        StandardSetting::List(items) => join_standards(items),
        _ => None,
    };
    if from_setting.is_some() {
        return from_setting;
    }
    match env {
        Some(e) => if !is_blank(&chars_of(e.as_str())) {
            Some(e)
        } else {
            None
        },
        None => None,
    }
}

} // verus!
