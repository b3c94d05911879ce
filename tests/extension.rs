use phpcs_lsp::extension::{choose_standard, Arch, Os, PhpcsLspServer, StandardSetting};

#[test]
fn launcher_starts_without_path() {
    let mut s = PhpcsLspServer::new();
    assert!(s.cached_binary_path.is_none());
    s.remember_binary_path("/x/bin".to_string());
    assert_eq!(s.cached_binary_path.as_deref(), Some("/x/bin"));
}

#[test]
fn platform_binary_names() {
    assert_eq!(PhpcsLspServer::get_platform_binary_name(Os::Windows, Arch::X8664), "phpcs-lsp-server-windows-x64.exe");
    assert_eq!(PhpcsLspServer::get_platform_binary_name(Os::Windows, Arch::Aarch64), "phpcs-lsp-server-windows-arm64.exe");
    assert_eq!(PhpcsLspServer::get_platform_binary_name(Os::Windows, Arch::X86), "phpcs-lsp-server.exe");
    assert_eq!(PhpcsLspServer::get_platform_binary_name(Os::Mac, Arch::Aarch64), "phpcs-lsp-server-macos-arm64");
    assert_eq!(PhpcsLspServer::get_platform_binary_name(Os::Mac, Arch::X8664), "phpcs-lsp-server-macos-x64");
    assert_eq!(PhpcsLspServer::get_platform_binary_name(Os::Mac, Arch::X86), "phpcs-lsp-server");
    assert_eq!(PhpcsLspServer::get_platform_binary_name(Os::Linux, Arch::X8664), "phpcs-lsp-server-linux-x64");
    assert_eq!(PhpcsLspServer::get_platform_binary_name(Os::Linux, Arch::Aarch64), "phpcs-lsp-server-linux-arm64");
    assert_eq!(PhpcsLspServer::get_platform_binary_name(Os::Linux, Arch::X86), "phpcs-lsp-server");
}

fn some(s: &str) -> Option<String> {
    Some(s.to_string())
}

#[test]
fn config_file_wins() {
    let r = choose_standard(some("/w/phpcs.xml"), StandardSetting::Text("PSR12".to_string()), some("PSR2"));
    assert_eq!(r.as_deref(), Some("/w/phpcs.xml"));
}

#[test]
fn setting_text_then_environment() {
    assert_eq!(choose_standard(None, StandardSetting::Text("PSR12".to_string()), some("PSR2")).as_deref(), Some("PSR12"));
    assert_eq!(choose_standard(None, StandardSetting::Text("   ".to_string()), some("PSR2")).as_deref(), Some("PSR2"));
    assert_eq!(choose_standard(None, StandardSetting::Absent, some(" \t")), None);
    assert_eq!(choose_standard(None, StandardSetting::Other, None), None);
}

#[test]
fn setting_list_is_joined() {
    let list = StandardSetting::List(vec![some("PSR12"), None, some("  "), some("Squiz")]);
    assert_eq!(choose_standard(None, list, some("PSR2")).as_deref(), Some("PSR12,Squiz"));
    let empty = StandardSetting::List(vec![None, some("")]);
    assert_eq!(choose_standard(None, empty, some("PSR2")).as_deref(), Some("PSR2"));
}
