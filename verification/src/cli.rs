//! CLI: the command line as data, and the decisions the command-line front
//! end makes from it (which settings the client gets, what a typed line means).

use vstd::prelude::*;
use crate::text::{same_text, trim, trimmed};

verus! {

/// The parsed command line.
pub struct Cli {
    /// Config file path.
    pub config: std::path::PathBuf,
    /// Memory file path.
    pub memory: std::path::PathBuf,
    /// Override of the LLM model.
    pub model: Option<String>,
    /// Override of the API key.
    pub api_key: Option<String>,
    /// Disable memory persistence.
    pub no_memory: bool,
    /// Verbose output.
    pub verbose: bool,
    /// Quiet mode (only output results).
    pub quiet: bool,
    pub command: Option<Command>,
}

/// The subcommands.
pub enum Command {
    /// Interactive mode (default).
    Run { system: Option<String> },
    /// Execute a single command.
    Exec { command: String, stream: bool },
    /// Chat mode.
    Chat { continue_: bool, clear: bool },
    /// Atom management.
    Atom { subcommand: AtomSubcommand },
    /// Memory management.
    Memory { subcommand: MemorySubcommand },
}

/// The subcommands of `atom`.
pub enum AtomSubcommand {
    /// List all available atoms.
    List,
    /// Show atom details.
    Info { name: String },
}

/// The subcommands of `memory`.
pub enum MemorySubcommand {
    /// Show memory content.
    Show,
    /// Clear all memory.
    Clear,
    /// Export memory to a file.
    Export { path: std::path::PathBuf },
    /// Import memory from a file.
    Import { path: std::path::PathBuf },
}

impl Cli {
    /// Whether the conversation is written to the memory file: unless
    /// `--no-memory` is given.
    pub fn persists_memory(&self) -> (b: bool)
        ensures
            b == !self.no_memory,
    {
        !self.no_memory
    }

    /// The persona of the session: the one given to `run --system`, else the
    /// configured one.
    pub fn persona(&self, configured: &str) -> (p: String)
        ensures
            p@ == (match self.command {
                Some(Command::Run { system: Some(s) }) => s@,
                _ => configured@,
            }),
    {
        match &self.command {
            Some(Command::Run { system: Some(s) }) => s.clone(),
            _ => configured.to_string(),
        }
    }

    /// Whether the command needs the model and the executor: every command
    /// but `atom` and `memory` does.
    pub fn needs_agent(&self) -> (b: bool)
        ensures
            b == !(self.command matches Some(Command::Atom { .. }) || self.command matches Some(
                Command::Memory { .. },
            )),
    {
        match &self.command {
            Some(Command::Atom { .. }) => false,
            Some(Command::Memory { .. }) => false,
            _ => true,
        }
    }
}

/// The settings of the LLM client: those of the configuration, with the
/// model and the key replaced by the command-line overrides when given.
pub fn client_settings(
    config: &crate::config::LlmConfig,
    model: Option<String>,
    api_key: Option<String>,
) -> (s: crate::llm::LlmConfig)
    ensures
        s.model@ == (match model {
            Some(m) => m@,
            None => config.model@,
        }),
        s.api_key@ == (match api_key {
            Some(k) => k@,
            None => config.api_key@,
        }),
        s.base_url@ == config.base_url@,
        s.timeout_secs == config.timeout_secs,
{
    crate::llm::LlmConfig {
        model: match model {
            Some(m) => m,
            None => config.model.clone(),
        },
        api_key: match api_key {
            Some(k) => k,
            None => config.api_key.clone(),
        },
        base_url: config.base_url.clone(),
        timeout_secs: config.timeout_secs,
    }
}

/// What a line typed in interactive mode asks for.
#[derive(Debug)]
pub enum ReplInput {
    /// Nothing: the line is blank.
    Skip,
    /// Leave interactive mode.
    Exit,
    /// Send this (trimmed) input to the agent.
    Submit(String),
}

/// Reads a line typed in interactive mode: blank lines are skipped, `exit`
/// and `quit` (around whitespace) leave, anything else is submitted trimmed.
pub fn read_input(line: &str) -> (r: ReplInput)
    ensures
        trim(line@).len() == 0 ==> r is Skip,
        trim(line@).len() != 0 && (trim(line@) == "exit"@ || trim(line@) == "quit"@) ==> r is Exit,
        trim(line@).len() != 0 && trim(line@) != "exit"@ && trim(line@) != "quit"@ ==> (r matches ReplInput::Submit(s) && s@ == trim(line@)),
{
    let t = trimmed(line);
    if t.as_str().is_empty() {
        ReplInput::Skip
    } else if same_text(t.as_str(), "exit") || same_text(t.as_str(), "quit") {
        ReplInput::Exit
    } else {
        ReplInput::Submit(t)
    }
}

} // verus!
