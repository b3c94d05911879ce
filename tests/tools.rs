use phpcs_lsp::{config_file_names, pick_phpcs_path, pick_tool_path, PhpTool};

#[test]
fn tool_names() {
    assert_eq!(PhpTool::Phpcs.name(), "phpcs");
    assert_eq!(PhpTool::Phpcbf.name(), "phpcbf");
    assert_eq!(PhpTool::Phpcs.display_name(), "PHPCS");
    assert_eq!(PhpTool::Phpcbf.display_name(), "PHPCBF");
    assert_eq!(PhpTool::Phpcs.vendor_bin(), "vendor/bin/phpcs");
    assert_eq!(PhpTool::Phpcbf.vendor_bin(), "vendor/bin/phpcbf");
    assert_eq!(PhpTool::Phpcs.phar_name(), "phpcs.phar");
    assert_eq!(PhpTool::Phpcbf.phar_name(), "phpcbf.phar");
}

#[test]
fn tool_path_priority() {
    let p = pick_tool_path(PhpTool::Phpcbf, Some("/w/vendor/bin/phpcbf".to_string()), true, Some("/x/phpcbf.phar".to_string()));
    assert_eq!(p, "/w/vendor/bin/phpcbf");
    let p = pick_tool_path(PhpTool::Phpcbf, None, true, Some("/x/phpcbf.phar".to_string()));
    assert_eq!(p, "phpcbf");
    let p = pick_tool_path(PhpTool::Phpcbf, None, false, Some("/x/phpcbf.phar".to_string()));
    assert_eq!(p, "/x/phpcbf.phar");
    let p = pick_tool_path(PhpTool::Phpcs, None, false, None);
    assert_eq!(p, "phpcs");
}

#[test]
fn phpcs_path_priority() {
    assert_eq!(pick_phpcs_path(Some("/p/vendor/bin/phpcs".to_string()), Some("/b/phpcs.phar".to_string())), "/p/vendor/bin/phpcs");
    assert_eq!(pick_phpcs_path(None, Some("/b/phpcs.phar".to_string())), "/b/phpcs.phar");
    assert_eq!(pick_phpcs_path(None, None), "phpcs");
}

#[test]
fn config_files_in_order() {
    assert_eq!(config_file_names(), vec![".phpcs.xml", "phpcs.xml", ".phpcs.xml.dist", "phpcs.xml.dist"]);
}
