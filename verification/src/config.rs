//! Configuration defaults and the places where configuration is looked for.
//! Reading and parsing the TOML files is the application's part; the
//! generation settings with a temperature live there too.

use vstd::prelude::*;
use crate::paths::{join_path, join_str};
use crate::text::owned;

verus! {

/// The API base used when none is configured.
pub fn default_api_base() -> (r: String)
    ensures
        r@ == "http://localhost:1234/v1"@,
{
    owned("http://localhost:1234/v1")
}

/// The model used when none is configured.
pub fn default_model() -> (r: String)
    ensures
        r@ == "google/gemma-3-12b"@,
{
    owned("google/gemma-3-12b")
}

/// The default limit on generated tokens.
pub fn default_max_tokens() -> (r: Option<u32>)
    ensures
        r == Some(4096u32),
{
    Some(4096)
}

/// Seconds a bash command may run (five minutes, enough to start a server).
pub fn default_bash_timeout() -> (r: u64)
    ensures
        r == 300,
{
    300
}

/// Seconds a git operation may run.
pub fn default_git_timeout() -> (r: u64)
    ensures
        r == 120,
{
    120
}

/// Seconds a workshop command may run.
pub fn default_workshop_timeout() -> (r: u64)
    ensures
        r == 30,
{
    30
}

/// Seconds a powertools operation may run.
pub fn default_powertools_timeout() -> (r: u64)
    ensures
        r == 60,
{
    60
}

/// Syntax highlighting is on by default.
pub fn default_syntax_highlighting() -> (r: bool)
    ensures
        r,
{
    true
}

/// At most this many lines of tool output are shown by default.
pub fn default_max_output_lines() -> (r: usize)
    ensures
        r == 1000,
{
    1000
}

/// Edits ask for approval by default.
pub fn default_edit_approval() -> (r: bool)
    ensures
        r,
{
    true
}

/// Responses are streamed by default.
pub fn default_streaming() -> (r: bool)
    ensures
        r,
{
    true
}

/// The default context window of the model, in tokens.
pub fn default_context_window() -> (r: Option<usize>)
    ensures
        r == Some(8192usize),
{
    Some(8192)
}

/// The default cap on bash output, in characters (about 12,500 tokens).
pub fn default_max_bash_output_chars() -> (r: usize)
    ensures
        r == 50000,
{
    50_000
}

/// The default cap on read output, in characters (about 50,000 tokens).
pub fn default_max_read_output_chars() -> (r: usize)
    ensures
        r == 200000,
{
    200_000
}

/// Reads above this many characters warn (about 25,000 tokens).
pub fn default_read_warn_at_chars() -> (r: usize)
    ensures
        r == 100000,
{
    100_000
}

/// Timeouts of the tools, in seconds.
pub struct TimeoutConfig {
    pub bash_timeout: u64,
    pub git_timeout: u64,
    pub workshop_timeout: u64,
    pub powertools_timeout: u64,
}

impl Default for TimeoutConfig {
    fn default() -> (r: TimeoutConfig)
        ensures
            r.bash_timeout == 300,
            r.git_timeout == 120,
            r.workshop_timeout == 30,
            r.powertools_timeout == 60,
    {
        TimeoutConfig {
            bash_timeout: default_bash_timeout(),
            git_timeout: default_git_timeout(),
            workshop_timeout: default_workshop_timeout(),
            powertools_timeout: default_powertools_timeout(),
        }
    }
}

/// Settings of the terminal interface.
pub struct UIConfig {
    pub syntax_highlighting: bool,
    pub max_output_lines: usize,
    pub edit_approval: bool,
}

impl Default for UIConfig {
    fn default() -> (r: UIConfig)
        ensures
            r.syntax_highlighting,
            r.max_output_lines == 1000,
            r.edit_approval,
    {
        UIConfig {
            syntax_highlighting: default_syntax_highlighting(),
            max_output_lines: default_max_output_lines(),
            edit_approval: default_edit_approval(),
        }
    }
}

/// Settings of the tools: a custom powertools binary, if any, and the
/// output limits.
pub struct ToolsConfig {
    pub powertools_binary_path: Option<String>,
    pub max_bash_output_chars: usize,
    pub max_read_output_chars: usize,
    pub read_warn_at_chars: usize,
}

impl Default for ToolsConfig {
    fn default() -> (r: ToolsConfig)
        ensures
            r.powertools_binary_path is None,
            r.max_bash_output_chars == 50000,
            r.max_read_output_chars == 200000,
            r.read_warn_at_chars == 100000,
    {
        ToolsConfig {
            powertools_binary_path: None,
            max_bash_output_chars: default_max_bash_output_chars(),
            max_read_output_chars: default_max_read_output_chars(),
            read_warn_at_chars: default_read_warn_at_chars(),
        }
    }
}

/// The project configuration file, relative to the working directory; it
/// overrides the global one.
pub fn project_config_path() -> (r: String)
    ensures
        r@ == "synthia.toml"@,
{
    owned("synthia.toml")
}

/// The user's configuration directory under the home directory `home`.
pub fn user_config_dir(home: &str) -> (r: String)
    ensures
        r@ == join_path(join_path(home@, ".config"@), "synthia"@),
{
    let c = join_str(home, ".config");
    join_str(c.as_str(), "synthia")
}

/// The user's (global) configuration file under the home directory `home`.
pub fn user_config_path(home: &str) -> (r: String)
    ensures
        r@ == join_path(join_path(join_path(home@, ".config"@), "synthia"@), "config.toml"@),
{
    let d = user_config_dir(home);
    join_str(d.as_str(), "config.toml")
}

/// The configuration files, lowest priority first: the global one, when
/// the home directory is known, then the project's.
pub fn config_paths(home: Option<&str>) -> (r: Vec<String>)
    ensures
        match home {
            Some(h) => r@.len() == 2 && r@[0]@ == join_path(
                join_path(join_path(h@, ".config"@), "synthia"@),
                "config.toml"@,
            ) && r@[1]@ == "synthia.toml"@,
            None => r@.len() == 1 && r@[0]@ == "synthia.toml"@,
        },
{
    let mut v: Vec<String> = Vec::new();
    if let Some(h) = home {
        v.push(user_config_path(h));
    }
    v.push(project_config_path());
    v
}

} // verus!
