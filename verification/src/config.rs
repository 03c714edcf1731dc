//! `~/.config/lazydap/config.toml`: the user's own preferences, and where the
//! file lives.
use vstd::prelude::*;

use crate::dirs_env;
use crate::pathname;
use crate::session::{adapter_text, AdapterKind};
use crate::text;

verus! {

/// The environment variable that says where the config file lives.
pub const CONFIG_PATH_ENV: &'static str = "LAZYDAP_CONFIG_PATH";

/// One `[adapter.<name>]` section.
#[derive(Debug, Clone, PartialEq, Eq)]
pub struct AdapterSection {
    pub name: String,
    pub command: Option<String>,
}

/// The user's preferences, or the defaults when there is no file.
#[derive(Debug, Clone, Default, PartialEq, Eq)]
pub struct Config {
    wait_timeout_seconds: Option<u64>,
    /// Keyed by adapter name; a name this build does not ship is kept and
    /// ignored rather than refused.
    adapters: Vec<AdapterSection>,
}

/// The command pinned for an adapter name: the first section with that name.
pub open spec fn pinned_command(sections: Seq<AdapterSection>, name: Seq<char>) -> Option<
    Seq<char>,
>
    decreases sections.len(),
{
    if sections.len() == 0 {
        None
    } else if sections[0].name@ == name {
        match sections[0].command {
            Some(command) => Some(command@),
            None => None,
        }
    } else {
        pinned_command(sections.drop_first(), name)
    }
}

impl Config {
    /// A config holding what a file said.
    pub fn new(wait_timeout_seconds: Option<u64>, adapters: Vec<AdapterSection>) -> (r: Config)
        ensures
            r.wait_timeout() == wait_timeout_seconds,
            r.sections() == adapters@,
    {
        Config { wait_timeout_seconds, adapters }
    }

    pub closed spec fn wait_timeout(&self) -> Option<u64> {
        self.wait_timeout_seconds
    }

    pub closed spec fn sections(&self) -> Seq<AdapterSection> {
        self.adapters@
    }

    /// Where the user pinned this adapter's binary, if they did, as written.
    pub fn adapter_command(&self, adapter: AdapterKind) -> (r: Option<String>)
        ensures
            match pinned_command(self.sections(), adapter_text(adapter)) {
                Some(command) => r matches Some(c) && c@ == command,
                None => r is None,
            },
    {
        let name = adapter.as_str();
        let mut i: usize = 0;
        assert(self.adapters@.skip(0) =~= self.adapters@);
        while i < self.adapters.len()
            invariant
                i <= self.adapters@.len(),
                name@ == adapter_text(adapter),
                pinned_command(self.adapters@, name@) == pinned_command(
                    self.adapters@.skip(i as int),
                    name@,
                ),
            decreases self.adapters.len() - i,
        {
            let section = &self.adapters[i];
            let ghost rest = self.adapters@.skip(i as int);
            assert(rest[0] == *section);
            if text::str_eq(section.name.as_str(), name) {
                return match &section.command {
                    Some(command) => Some(command.clone()),
                    None => None,
                };
            }
            assert(rest.drop_first() =~= self.adapters@.skip(i + 1));
            i = i + 1;
        }
        None
    }

    /// The user's default wait timeout in seconds, if they set one.
    pub fn wait_timeout_seconds(&self) -> (r: Option<u64>)
        ensures
            r == self.wait_timeout(),
    {
        self.wait_timeout_seconds
    }
}

/// Why the config could not be had.
#[derive(Debug, Clone, PartialEq, Eq)]
pub enum ConfigError {
    NoConfigDirectory,
    Read { path: String, message: String },
    Parse { path: String, message: String },
}

/// The message a person sees for a config that could not be had.
pub open spec fn config_error_text(e: ConfigError) -> Seq<char> {
    match e {
        ConfigError::NoConfigDirectory => "cannot locate a config directory for lazydap"@,
        ConfigError::Read { path, message } => "cannot read "@ + path@ + ": "@ + message@,
        ConfigError::Parse { path, message } => path@ + " is not valid lazydap config: "@
            + message@,
    }
}

impl ConfigError {
    /// The message a person sees.
    pub fn to_string(&self) -> (r: String)
        ensures
            r@ == config_error_text(*self),
    {
        match self {
            ConfigError::NoConfigDirectory => text::owned(
                "cannot locate a config directory for lazydap",
            ),
            ConfigError::Read { path, message } => {
                let mut r = text::owned("cannot read ");
                text::push_str(&mut r, path.as_str());
                text::push_str(&mut r, ": ");
                text::push_str(&mut r, message.as_str());
                r
            },
            ConfigError::Parse { path, message } => {
                let mut r = path.clone();
                text::push_str(&mut r, " is not valid lazydap config: ");
                text::push_str(&mut r, message.as_str());
                r
            },
        }
    }
}

/// The environment variable that names the config file.
pub open spec fn usable_override(env_override: Option<Seq<char>>) -> Option<Seq<char>> {
    match env_override {
        Some(path) => if path.len() > 0 {
            Some(path)
        } else {
            None
        },
        None => None,
    }
}

/// `<config dir>/lazydap/config.toml`.
pub open spec fn default_config_file(config_dir: Seq<char>) -> Seq<char> {
    pathname::join(pathname::join(config_dir, "lazydap"@), "config.toml"@)
}

pub open spec fn opt_view(s: Option<&str>) -> Option<Seq<char>> {
    match s {
        Some(t) => Some(t@),
        None => None,
    }
}

/// Where the config file lives, given the override from the environment and
/// the platform's config directory: a non-empty override wins.
pub fn config_path_from(env_override: Option<&str>, config_dir: Option<String>) -> (r: Result<
    String,
    ConfigError,
>)
    ensures
        match usable_override(opt_view(env_override)) {
            Some(path) => r matches Ok(p) && p@ == path,
            None => match config_dir {
                Some(dir) => r matches Ok(p) && p@ == default_config_file(dir@),
                None => r == Err::<String, ConfigError>(ConfigError::NoConfigDirectory),
            },
        },
{
    if let Some(path) = env_override {
        if text::chars_of(path).len() > 0 {
            return Ok(text::owned(path));
        }
    }
    match config_dir {
        Some(dir) => {
            let base = pathname::join_path(dir.as_str(), "lazydap");
            Ok(pathname::join_path(base.as_str(), "config.toml"))
        },
        None => Err(ConfigError::NoConfigDirectory),
    }
}

/// Where the config file lives: the environment override, else the
/// platform's config directory. Which directory that is depends on the
/// machine, so only its shape is promised.
pub fn config_path(env_override: Option<&str>) -> (r: Result<String, ConfigError>)
    ensures
        match usable_override(opt_view(env_override)) {
            Some(path) => r matches Ok(p) && p@ == path,
            None => match r {
                Ok(p) => exists|dir: Seq<char>| p@ == #[trigger] default_config_file(dir),
                Err(e) => e == ConfigError::NoConfigDirectory,
            },
        },
{
    if let Some(path) = env_override {
        if text::chars_of(path).len() > 0 {
            return Ok(text::owned(path));
        }
    }
    let dir = dirs_env::config_dir();
    let ghost d = dir;
    let r = config_path_from(None, dir);
    proof {
        if let Some(dd) = d {
            assert(r matches Ok(p) && p@ == default_config_file(dd@));
        }
    }
    r
}

/// What a config file that is not there means: the defaults at the default
/// location, where most people never create one; an error at a path the
/// user named, since a typo there should say so rather than leave them
/// wondering why their pinned adapter is ignored.
pub fn missing_config(path: &str, named_by_user: bool, message: String) -> (r: Result<
    Config,
    ConfigError,
>)
    ensures
        !named_by_user ==> (r matches Ok(c) && c.wait_timeout() is None && c.sections().len()
            == 0),
        named_by_user ==> (r matches Err(ConfigError::Read { path: p, message: m }) && p@ == path@
            && m@ == message@),
{
    if named_by_user {
        Err(ConfigError::Read { path: text::owned(path), message })
    } else {
        Ok(Config::new(None, Vec::new()))
    }
}

} // verus!
