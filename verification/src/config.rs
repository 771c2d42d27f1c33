#![allow(non_snake_case)]

use vstd::prelude::*;

verus! {

/// The book-side configuration the tool derives from the project
/// configuration file: the three scaffold folders and the configured
/// preprocessors with the packages that provide them.
pub struct RFCBookConfig {
    pub textFolder: String,
    pub vendorFolder: String,
    pub templateFolder: String,
    pub preprocessors: Vec<String>,
    pub packages: Vec<String>,
}

impl Default for RFCBookConfig {
    /// The stock folder layout, with no preprocessors configured.
    fn default() -> (r: RFCBookConfig)
        ensures
            r.textFolder@ == "text"@,
            r.vendorFolder@ == "public"@,
            r.templateFolder@ == "template"@,
            r.preprocessors@.len() == 0,
            r.packages@.len() == 0,
    {
        RFCBookConfig {
            textFolder: "text".to_owned(),
            vendorFolder: "public".to_owned(),
            templateFolder: "template".to_owned(),
            preprocessors: Vec::new(),
            packages: Vec::new(),
        }
    }
}

/// Derive the book configuration from the `preprocessor` table of the
/// project configuration: one entry per preprocessor, the package being the
/// entry's `command` override where present and the preprocessor's own name
/// otherwise.
#[verifier::loop_isolation(false)]
pub fn fetch_rfcbook_config(entries: &Vec<(String, Option<String>)>) -> (r: RFCBookConfig)
    ensures
        r.textFolder@ == "text"@,
        r.vendorFolder@ == "public"@,
        r.templateFolder@ == "template"@,
        r.preprocessors@.len() == entries@.len(),
        r.packages@.len() == entries@.len(),
        forall|k: int|
            0 <= k < entries@.len() ==> (#[trigger] r.preprocessors@[k])@ == entries@[k].0@,
        forall|k: int|
            0 <= k < entries@.len() ==> (#[trigger] r.packages@[k])@ == (match entries@[k].1 {
                Some(c) => c@,
                None => entries@[k].0@,
            }),
{
    let mut cfg = RFCBookConfig::default();
    let mut i: usize = 0;
    while i < entries.len()
        invariant
            i <= entries@.len(),
            cfg.textFolder@ == "text"@,
            cfg.vendorFolder@ == "public"@,
            cfg.templateFolder@ == "template"@,
            cfg.preprocessors@.len() == i as int,
            cfg.packages@.len() == i as int,
            forall|k: int|
                0 <= k < i ==> (#[trigger] cfg.preprocessors@[k])@ == entries@[k].0@,
            forall|k: int|
                0 <= k < i ==> (#[trigger] cfg.packages@[k])@ == (match entries@[k].1 {
                    Some(c) => c@,
                    None => entries@[k].0@,
                }),
        decreases entries@.len() - i,
    {
        let name = entries[i].0.clone();
        let package = match &entries[i].1 {
            Some(command) => command.clone(),
            None => entries[i].0.clone(),
        };
        cfg.preprocessors.push(name);
        cfg.packages.push(package);
        i = i + 1;
    }
    cfg
}

/// The argument vector of the package installation step: `install`, the
/// book builder itself, then the configured preprocessor packages.
#[verifier::loop_isolation(false)]
pub fn install_args(cfg: &RFCBookConfig) -> (r: Vec<String>)
    ensures
        r@.len() == 2 + cfg.packages@.len(),
        r@[0]@ == "install"@,
        r@[1]@ == "mdbook"@,
        forall|k: int| 2 <= k < r@.len() ==> (#[trigger] r@[k])@ == cfg.packages@[k - 2]@,
{
    let mut args: Vec<String> = Vec::new();
    args.push("install".to_owned());
    args.push("mdbook".to_owned());
    let mut i: usize = 0;
    while i < cfg.packages.len()
        invariant
            i <= cfg.packages@.len(),
            args@.len() == 2 + i as int,
            args@[0]@ == "install"@,
            args@[1]@ == "mdbook"@,
            forall|k: int| 2 <= k < args@.len() ==> (#[trigger] args@[k])@ == cfg.packages@[k - 2]@,
        decreases cfg.packages@.len() - i,
    {
        let p = cfg.packages[i].clone();
        args.push(p);
        i = i + 1;
    }
    args
}

/// The folders the project scaffold needs, in creation order.
pub fn scaffold_folders(cfg: &RFCBookConfig) -> (r: Vec<String>)
    ensures
        r@.len() == 3,
        r@[0]@ == cfg.templateFolder@,
        r@[1]@ == cfg.textFolder@,
        r@[2]@ == cfg.vendorFolder@,
{
    let mut folders: Vec<String> = Vec::new();
    folders.push(cfg.templateFolder.clone());
    folders.push(cfg.textFolder.clone());
    folders.push(cfg.vendorFolder.clone());
    folders
}

} // verus!
