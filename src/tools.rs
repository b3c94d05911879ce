use vstd::prelude::*;

verus! {

/// The command-line tools of PHP_CodeSniffer.
#[derive(Debug, Clone, Copy, PartialEq, Eq, Structural)]
pub enum PhpTool {
    Phpcs,
    Phpcbf,
}

/// Executable name of a tool.
pub open spec fn tool_name(t: PhpTool) -> Seq<char> {
    match t {
        PhpTool::Phpcs => "phpcs"@,
        PhpTool::Phpcbf => "phpcbf"@,
    }
}

impl PhpTool {
    /// Executable name of the tool.
    pub fn name(&self) -> (r: &'static str)
        ensures
            r@ == tool_name(*self),
    {
        match self {
            PhpTool::Phpcs => "phpcs",
            PhpTool::Phpcbf => "phpcbf",
        }
    }

    /// Name of the tool as shown to a user.
    pub fn display_name(&self) -> (r: &'static str)
        ensures
            r@ == (match self {
                PhpTool::Phpcs => "PHPCS"@,
                PhpTool::Phpcbf => "PHPCBF"@,
            }),
    {
        match self {
            PhpTool::Phpcs => "PHPCS",
            PhpTool::Phpcbf => "PHPCBF",
        }
    }

    /// Location of the tool inside a Composer project.
    pub fn vendor_bin(&self) -> (r: &'static str)
        ensures
            r@ == (match self {
                PhpTool::Phpcs => "vendor/bin/phpcs"@,
                PhpTool::Phpcbf => "vendor/bin/phpcbf"@,
            }),
    {
        match self {
            PhpTool::Phpcs => "vendor/bin/phpcs",
            PhpTool::Phpcbf => "vendor/bin/phpcbf",
        }
    }

    /// File name of the bundled PHAR archive of the tool.
    pub fn phar_name(&self) -> (r: &'static str)
        ensures
            r@ == (match self {
                PhpTool::Phpcs => "phpcs.phar"@,
                PhpTool::Phpcbf => "phpcbf.phar"@,
            }),
    {
        match self {
            PhpTool::Phpcs => "phpcs.phar",
            PhpTool::Phpcbf => "phpcbf.phar",
        }
    }
}

/// The path a tool is run by: the project's own copy if one was found, else
/// the bare name if the tool is on the search path, else the bundled
/// archive if there is one, else the bare name.
pub fn pick_tool_path(tool: PhpTool, project: Option<String>, on_path: bool, bundled: Option<String>) -> (r: String)
    ensures
        r@ == (match project {
            Some(p) => p@,
            None => if !on_path && bundled is Some {
                bundled->0@
            } else {
                tool_name(tool)
            },
        }),
{
    match project {
        Some(p) => p,
        None => {
            if !on_path {
                match bundled {
                    Some(b) => {
                        return b;
                    },
                    None => {},
                }
            }
            String::from_str(tool.name())
        },
    }
}

/// The path the language server runs the sniffer by: the project's own copy
/// if one was found, else the bundled archive if there is one, else the
/// bare name, which the search path resolves.
pub fn pick_phpcs_path(project: Option<String>, bundled: Option<String>) -> (r: String)
    ensures
        r@ == (match project {
            Some(p) => p@,
            None => match bundled {
                Some(b) => b@,
                None => "phpcs"@,
            },
        }),
{
    match project {
        Some(p) => p,
        None => match bundled {
            Some(b) => b,
            None => String::from_str("phpcs"),
        },
    }
}

/// Names of the sniffer's configuration files, most preferred first.
pub fn config_file_names() -> (r: Vec<&'static str>)
    ensures
        r@.map_values(|s: &'static str| s@) == seq![
            ".phpcs.xml"@,
            "phpcs.xml"@,
            ".phpcs.xml.dist"@,
            "phpcs.xml.dist"@,
        ],
{
    let mut v: Vec<&'static str> = Vec::new();
    v.push(".phpcs.xml");
    v.push("phpcs.xml");
    v.push(".phpcs.xml.dist");
    v.push("phpcs.xml.dist");
    assert(v@.map_values(|s: &'static str| s@) =~= seq![
        ".phpcs.xml"@,
        "phpcs.xml"@,
        ".phpcs.xml.dist"@,
        "phpcs.xml.dist"@,
    ]);
    v
}

} // verus!
