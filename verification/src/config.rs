//! The configuration of the bridge and what it means for a launch.

use vstd::prelude::*;
use vstd::string::*;
use crate::invoke::{Platform, InvocationPlan, plan_for, build};
use crate::text::texts;

verus! {

/// The user's settings: an explicit path to the assistant, if any, and the
/// arguments that go before every prompt.
#[derive(Debug, Clone, PartialEq, Eq)]
pub struct AppConfig {
    pub gemini_cli_path: Option<String>,
    pub gemini_cli_args: Vec<String>,
}

impl Default for AppConfig {
    fn default() -> (r: AppConfig)
        ensures
            r.gemini_cli_path is None,
            r.gemini_cli_args@.len() == 0,
    {
        AppConfig { gemini_cli_path: None, gemini_cli_args: Vec::new() }
    }
}

/// The executable that a launch uses: the configured path; without one, the
/// path that was found on the host; without either, the bare command name.
pub open spec fn executable_choice(configured: Option<String>, found: Option<String>) -> Seq<char> {
    match configured {
        Some(path) => path@,
        None => match found {
            Some(path) => path@,
            None => "gemini"@,
        },
    }
}

impl AppConfig {
    /// Whether the host has to be searched: only where no path is configured.
    pub fn needs_search(&self) -> (r: bool)
        ensures
            r == (self.gemini_cli_path is None),
    {
        self.gemini_cli_path.is_none()
    }

    /// The executable for a launch, given what a search of the host found.
    pub fn executable(&self, found: Option<String>) -> (r: String)
        ensures
            r@ == executable_choice(self.gemini_cli_path, found),
    {
        match &self.gemini_cli_path {
            Some(path) => path.clone(),
            None => match found {
                Some(path) => path,
                None => "gemini".to_owned(),
            },
        }
    }

    /// The launch recipe for a prompt under this configuration.
    pub fn plan(&self, platform: Platform, found: Option<String>, prompt: &str) -> (r:
        InvocationPlan)
        ensures
            r@ == plan_for(
                platform,
                executable_choice(self.gemini_cli_path, found),
                texts(self.gemini_cli_args@),
                prompt@,
            ),
    {
        let executable = self.executable(found);
        build(platform, executable.as_str(), &self.gemini_cli_args, prompt)
    }
}

} // verus!
