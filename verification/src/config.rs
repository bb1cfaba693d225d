//! Configuration: the typed configuration tree and its validation rules.

use vstd::prelude::*;
use crate::text::{chars_of, prefixed, string_of};

verus! {

/// Why a configuration could not be obtained.
#[derive(Debug)]
pub enum ConfigError {
    FileNotFound(String),
    ParseError(String),
    ValidationError(String),
    MissingField(String),
    IoError(std::io::Error),
}

impl ConfigError {
    /// The text that describes this error to the user; an I/O failure is
    /// described by the `Display` text of the operating-system error.
    pub fn message(&self) -> (m: String)
        ensures
            match *self {
                ConfigError::FileNotFound(p) => m@ == "配置文件不存在: "@ + p@,
                ConfigError::ParseError(p) => m@ == "配置解析失败: "@ + p@,
                ConfigError::ValidationError(p) => m@ == "配置验证失败: "@ + p@,
                ConfigError::MissingField(p) => m@ == "缺少必需配置: "@ + p@,
                ConfigError::IoError(e) => exists|t: String|
                    vstd::string::to_string_from_display_ensures::<std::io::Error>(&e, t) && m@ == "IO错误: "@ + t@,
            },
    {
        match self {
            ConfigError::FileNotFound(p) => prefixed("配置文件不存在: ", p.as_str()),
            ConfigError::ParseError(p) => prefixed("配置解析失败: ", p.as_str()),
            ConfigError::ValidationError(p) => prefixed("配置验证失败: ", p.as_str()),
            ConfigError::MissingField(p) => prefixed("缺少必需配置: ", p.as_str()),
            ConfigError::IoError(e) => {
                let t = e.to_string();
                prefixed("IO错误: ", t.as_str())
            },
        }
    }
}

/// The whole configuration tree of the agent.
#[derive(Debug, Clone)]
pub struct Config {
    pub core: CoreConfig,
    pub llm: LlmConfig,
    pub system: SystemConfig,
    pub atoms: AtomsConfig,
}

/// Name and version of the agent.
#[derive(Debug, Clone)]
pub struct CoreConfig {
    pub name: String,
    pub version: String,
}

/// Where and how to reach the language model.
#[derive(Debug, Clone)]
pub struct LlmConfig {
    pub model: String,
    pub api_key: String,
    pub base_url: String,
    pub timeout_secs: u64,
}

/// The persona given to the model.
#[derive(Debug, Clone)]
pub struct SystemConfig {
    pub persona: String,
}

/// Which atoms are switched on; an empty list switches on every atom.
#[derive(Debug, Clone)]
pub struct AtomsConfig {
    pub active: Vec<String>,
}

/// Timeout, in seconds, used when the configuration names none.
pub fn default_timeout() -> (t: u64)
    ensures
        t == 60,
{
    60
}

/// The atoms that are active when the configuration does not list any.
pub open spec fn default_active_atoms() -> Seq<Seq<char>> {
    seq!["shell_exec"@, "file_read"@, "file_write"@]
}

impl Default for AtomsConfig {
    fn default() -> (d: Self)
        ensures
            d.active@.map_values(|s: String| s@) == default_active_atoms(),
    {
        let mut active: Vec<String> = Vec::new();
        active.push("shell_exec".to_string());
        active.push("file_read".to_string());
        active.push("file_write".to_string());
        assert(active@.map_values(|s: String| s@) =~= default_active_atoms());
        AtomsConfig { active }
    }
}

/// The first required field that is empty, in the order in which they are
/// checked, by its dotted name; `None` when every required field is set.
pub open spec fn missing_field(c: Config) -> Option<Seq<char>> {
    if c.core.name@.len() == 0 {
        Some("core.name"@)
    } else if c.llm.model@.len() == 0 {
        Some("llm.model"@)
    } else if c.llm.base_url@.len() == 0 {
        Some("llm.base_url"@)
    } else if c.system.persona@.len() == 0 {
        Some("system.persona"@)
    } else {
        None
    }
}

/// A configuration is valid exactly when its name, model, endpoint and
/// persona are all set, whatever its other settings hold (an empty API key
/// among them: a local server needs none). When one is not set, the field
/// reported is one of those four, and it is empty.
pub proof fn lemma_validation_checks_required_fields(c: Config)
    ensures
        missing_field(c) is None <==> (c.core.name@.len() > 0 && c.llm.model@.len() > 0
            && c.llm.base_url@.len() > 0 && c.system.persona@.len() > 0),
        missing_field(c) == Some("core.name"@) ==> c.core.name@.len() == 0,
        missing_field(c) == Some("llm.model"@) ==> c.llm.model@.len() == 0,
        missing_field(c) == Some("llm.base_url"@) ==> c.llm.base_url@.len() == 0,
        missing_field(c) == Some("system.persona"@) ==> c.system.persona@.len() == 0,
        missing_field(c) matches Some(f) ==> (f == "core.name"@ || f == "llm.model"@ || f == "llm.base_url"@
            || f == "system.persona"@),
{
    reveal_strlit("core.name");
    reveal_strlit("llm.model");
    reveal_strlit("llm.base_url");
    reveal_strlit("system.persona");
    assert("core.name"@.len() == 9 && "llm.model"@.len() == 9 && "llm.base_url"@.len() == 12);
    assert("system.persona"@.len() == 14 && "core.name"@[0] != "llm.model"@[0]);
}

/// Two configurations that agree on name, model, endpoint and persona are
/// judged alike by validation: the API key, version, timeout and atom list
/// play no part in it.
pub proof fn lemma_validation_ignores_other_fields(c1: Config, c2: Config)
    requires
        c1.core.name@ == c2.core.name@,
        c1.llm.model@ == c2.llm.model@,
        c1.llm.base_url@ == c2.llm.base_url@,
        c1.system.persona@ == c2.system.persona@,
    ensures
        missing_field(c1) == missing_field(c2),
{
}

/// Whether atom `name` is switched on by the list `active`.
pub open spec fn atom_enabled(active: Seq<String>, name: Seq<char>) -> bool {
    active.len() == 0 || exists|i: int| 0 <= i < active.len() && (#[trigger] active[i])@ == name
}

/// The name of the environment variable that a setting refers to, when it is
/// written `${NAME}` with a non-empty name.
pub open spec fn env_reference_of(value: Seq<char>) -> Option<Seq<char>> {
    if value.len() >= 4 && value[0] == '$' && value[1] == '{' && value.last() == '}' {
        Some(value.subrange(2, value.len() - 1))
    } else {
        None
    }
}

/// The name of the environment variable that `value` refers to, when it is
/// written `${NAME}`.
pub fn env_reference(value: &str) -> (r: Option<String>)
    ensures
        match r {
            Some(n) => env_reference_of(value@) == Some(n@),
            None => env_reference_of(value@) is None,
        },
{
    let cs = chars_of(value);
    let n = cs.len();
    if n >= 4 && cs[0] == '$' && cs[1] == '{' && cs[n - 1] == '}' {
        Some(string_of(&cs, 2, n - 1))
    } else {
        None
    }
}

impl Config {
    /// Resolves an API key written `${NAME}`: it becomes `env_value`, the
    /// value of that variable (empty when it is unset); any other key stays.
    pub fn expand_api_key(&mut self, env_value: Option<String>)
        ensures
            env_reference_of(old(self).llm.api_key@) is None ==> *final(self) == *old(self),
            env_reference_of(old(self).llm.api_key@) is Some ==> final(self).llm.api_key@ == (match env_value {
                Some(v) => v@,
                None => Seq::<char>::empty(),
            }),
            final(self).core == old(self).core,
            final(self).system == old(self).system,
            final(self).atoms == old(self).atoms,
            final(self).llm.model == old(self).llm.model,
            final(self).llm.base_url == old(self).llm.base_url,
            final(self).llm.timeout_secs == old(self).llm.timeout_secs,
    {
        if env_reference(self.llm.api_key.as_str()).is_some() {
            self.llm.api_key = match env_value {
                Some(v) => v,
                None => String::new(),
            };
        }
    }

    /// Checks that every required field is set.
    pub fn validate(&self) -> (r: Result<(), ConfigError>)
        ensures
            match r {
                Ok(()) => missing_field(*self) is None,
                Err(ConfigError::MissingField(f)) => missing_field(*self) == Some(f@),
                Err(_) => false,
            },
    {
        if self.core.name.as_str().is_empty() {
            return Err(ConfigError::MissingField("core.name".to_string()));
        }
        if self.llm.model.as_str().is_empty() {
            return Err(ConfigError::MissingField("llm.model".to_string()));
        }
        if self.llm.base_url.as_str().is_empty() {
            return Err(ConfigError::MissingField("llm.base_url".to_string()));
        }
        if self.system.persona.as_str().is_empty() {
            return Err(ConfigError::MissingField("system.persona".to_string()));
        }
        Ok(())
    }

    /// Accepts the outcome of parsing a configuration file: a parse failure
    /// becomes `ParseError`, a parsed configuration is validated.
    pub fn from_parsed(parsed: Result<Config, String>) -> (r: Result<Config, ConfigError>)
        ensures
            match parsed {
                Err(m) => r matches Err(ConfigError::ParseError(e)) && e@ == m@,
                Ok(c) => match missing_field(c) {
                    None => r == Ok::<Config, ConfigError>(c),
                    Some(f) => r matches Err(ConfigError::MissingField(e)) && e@ == f,
                },
            },
    {
        match parsed {
            Err(m) => Err(ConfigError::ParseError(m)),
            Ok(c) => match c.validate() {
                Ok(()) => Ok(c),
                Err(e) => Err(e),
            },
        }
    }

    /// Whether the atom called `name` is switched on.
    pub fn get_atom_enabled(&self, name: &str) -> (r: bool)
        ensures
            r == atom_enabled(self.atoms.active@, name@),
    {
        enabled_in(&self.atoms.active, name)
    }
}

/// Whether the atom called `name` is switched on by the list `active`.
pub fn enabled_in(active: &Vec<String>, name: &str) -> (r: bool)
    ensures
        r == atom_enabled(active@, name@),
{
    let n = active.len();
    if n == 0 {
        return true;
    }
    let wanted = name.to_string();
    let mut i: usize = 0;
    while i < n
        invariant
            n == active@.len(),
            0 <= i <= n,
            wanted@ == name@,
            forall|j: int| 0 <= j < i ==> active@[j]@ != name@,
        decreases n - i,
    {
        if active[i] == wanted {
            return true;
        }
        i = i + 1;
    }
    false
}

} // verus!
