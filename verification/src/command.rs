use vstd::prelude::*;

use crate::preprocessor::RFCPreprocessor;

verus! {

/// The subcommands that delegate to an external program. The renderer
/// support query is not here: it spawns nothing and answers through its
/// exit code alone.
#[derive(Clone, Copy, Debug, PartialEq, Eq, Structural)]
pub enum CmdQuery {
    Init,
    Add,
    Install,
    Build,
    Populate,
    Clean,
    Watch,
    New,
    Serve,
}

/// The delegated invocation of a subcommand: the program and its fixed
/// argument, `None` for the subcommands that spawn no external process
/// themselves (installation builds its arguments from the configuration,
/// and the remaining ones only do directory work).
pub fn delegated_command(cmd: &CmdQuery) -> (r: Option<(String, String)>)
    ensures
        match *cmd {
            CmdQuery::Init => r matches Some(p) && p.0@ == "mdbook"@ && p.1@ == "init"@,
            CmdQuery::Build => r matches Some(p) && p.0@ == "mdbook"@ && p.1@ == "build"@,
            CmdQuery::Clean => r matches Some(p) && p.0@ == "mdbook"@ && p.1@ == "clean"@,
            CmdQuery::Watch => r matches Some(p) && p.0@ == "mdbook"@ && p.1@ == "watch"@,
            CmdQuery::Serve => r matches Some(p) && p.0@ == "mdbook"@ && p.1@ == "serve"@,
            CmdQuery::Add => r matches Some(p) && p.0@ == "cargo"@ && p.1@ == "build"@,
            CmdQuery::Install => r is None,
            CmdQuery::Populate => r is None,
            CmdQuery::New => r is None,
        },
{
    match cmd {
        CmdQuery::Init => Some(("mdbook".to_owned(), "init".to_owned())),
        CmdQuery::Build => Some(("mdbook".to_owned(), "build".to_owned())),
        CmdQuery::Clean => Some(("mdbook".to_owned(), "clean".to_owned())),
        CmdQuery::Watch => Some(("mdbook".to_owned(), "watch".to_owned())),
        CmdQuery::Serve => Some(("mdbook".to_owned(), "serve".to_owned())),
        CmdQuery::Add => Some(("cargo".to_owned(), "build".to_owned())),
        CmdQuery::Install => None,
        CmdQuery::Populate => None,
        CmdQuery::New => None,
    }
}

/// The whole contract of the renderer support query: exit code 0 when the
/// renderer is allowlisted, 1 otherwise.
pub fn supports_exit_code(pre: &RFCPreprocessor, renderer: &str) -> (r: i32)
    ensures
        r == 0 <==> renderer@ == "rfc"@,
        r == 0 || r == 1,
{
    if pre.supports_renderer(renderer) {
        0
    } else {
        1
    }
}

} // verus!
