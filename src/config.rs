//! A project's configuration.
use vstd::prelude::*;
use crate::js_codegen::{cat, LILAC_VERSION};
use crate::text::{str_eq, string_from};

verus! {

/// A project's configuration: the compiler version it was made for, where
/// output goes, and in what form.
pub struct Config {
    pub lilac_version: String,
    pub output_dir: Option<String>,
    pub output_type: String,
}

impl Default for Config {
    fn default() -> (r: Config)
        ensures
            r.lilac_version@ == LILAC_VERSION@,
            r.output_dir matches Some(d) && d@ == "dist"@,
            r.output_type@ == "html"@,
    {
        Config {
            lilac_version: string_from(LILAC_VERSION),
            output_dir: Some(string_from("dist")),
            output_type: string_from("html"),
        }
    }
}

/// Refuses a configuration made for another version of the compiler.
pub fn check_version(config: &Config) -> (r: Result<(), String>)
    ensures
        r is Ok <==> config.lilac_version@ == LILAC_VERSION@,
{
    if str_eq(config.lilac_version.as_str(), LILAC_VERSION) {
        Ok(())
    } else {
        Err(
            cat(
                &vec![
                    "Version mismatch. Expected: ",
                    LILAC_VERSION,
                    ", Found: ",
                    config.lilac_version.as_str(),
                ],
            ),
        )
    }
}

} // verus!
