//! Plugin settings: documented defaults, assembly from the fields of a parsed
//! settings document, and expansion of the workspace-storage path.

use vstd::prelude::*;
use vstd::string::StringExecFns;

verus! {

/// Default editor command.
pub open spec fn default_command() -> Seq<char> {
    "code"@
}

/// Default icon identifier.
pub open spec fn default_icon() -> Seq<char> {
    "com.visualstudio.code"@
}

/// Default workspace-storage directory.
pub open spec fn default_workspace() -> Seq<char> {
    "~/.config/Code/User/workspaceStorage"@
}

/// Plugin settings, immutable once loaded.
pub struct Config {
    /// Optional query prefix; when set, only inputs carrying it are matched.
    pub prefix: Option<String>,
    /// Editor command run on a selection.
    pub command: String,
    /// Icon identifier attached to every match.
    pub icon: String,
    /// Workspace-storage directory, possibly starting with `~`.
    pub workspace: String,
}

/// The ghost value of a `Config`.
pub struct ConfigV {
    pub prefix: Option<Seq<char>>,
    pub command: Seq<char>,
    pub icon: Seq<char>,
    pub workspace: Seq<char>,
}

impl View for Config {
    type V = ConfigV;

    open spec fn view(&self) -> ConfigV {
        ConfigV {
            prefix: match self.prefix {
                Some(p) => Some(p@),
                None => None,
            },
            command: self.command@,
            icon: self.icon@,
            workspace: self.workspace@,
        }
    }
}

/// Why a settings document could not be read; the loader falls back to the
/// defaults on either.
pub enum ConfigError {
    /// The settings file was missing or unreadable.
    Io,
    /// The settings document did not parse.
    Ron,
}

impl ConfigError {
    /// A short label for diagnostics.
    pub fn label(&self) -> (r: &'static str)
        ensures
            self is Io ==> r@ == "could not read the settings file"@,
            self is Ron ==> r@ == "could not parse the settings document"@,
    {
        match self {
            ConfigError::Io => "could not read the settings file",
            ConfigError::Ron => "could not parse the settings document",
        }
    }
}

impl Config {
    /// Builds a configuration from the fields of a parsed settings document,
    /// substituting the documented default for every absent field.
    pub fn from_parts(
        prefix: Option<String>,
        command: Option<String>,
        icon: Option<String>,
        workspace: Option<String>,
    ) -> (r: Config)
        ensures
            r@.prefix == match prefix {
                Some(p) => Some(p@),
                None => None::<Seq<char>>,
            },
            r@.command == match command {
                Some(c) => c@,
                None => default_command(),
            },
            r@.icon == match icon {
                Some(c) => c@,
                None => default_icon(),
            },
            r@.workspace == match workspace {
                Some(w) => w@,
                None => default_workspace(),
            },
    {
        Config {
            prefix,
            command: match command {
                Some(c) => c,
                None => "code".to_owned(),
            },
            icon: match icon {
                Some(c) => c,
                None => "com.visualstudio.code".to_owned(),
            },
            workspace: match workspace {
                Some(w) => w,
                None => "~/.config/Code/User/workspaceStorage".to_owned(),
            },
        }
    }

    /// The all-defaults configuration, used whenever the settings document is
    /// missing or malformed.
    pub fn defaults() -> (r: Config)
        ensures
            r@.prefix is None,
            r@.command == default_command(),
            r@.icon == default_icon(),
            r@.workspace == default_workspace(),
    {
        Config::from_parts(None, None, None, None)
    }

    /// The workspace-storage root with a leading `~` expanded to the home
    /// directory. A path that does not start with `~`, or whose `~` is
    /// followed by anything but `/`, is returned as it stands; for `~` alone
    /// or a `~/`-led path, the part after the `~` is kept as a suffix,
    /// whatever home prefix the environment supplies.
    pub fn workspace_root(&self) -> (r: String)
        ensures
            self@.workspace.len() == 0 || self@.workspace[0] != '~' ==> r@ == self@.workspace,
            self@.workspace.len() >= 2 && self@.workspace[0] == '~' && self@.workspace[1] != '/'
                ==> r@ == self@.workspace,
            (self@.workspace =~= seq!['~'] || (self@.workspace.len() >= 2 && self@.workspace[0]
                == '~' && self@.workspace[1] == '/')) ==> exists|h: Seq<char>|
                r@ == h + self@.workspace.subrange(1, self@.workspace.len() as int),
    {
        expand_tilde(self.workspace.as_str())
    }
}

/// Relies on shellexpand::tilde: an input that does not start with `'~'` is
/// returned unchanged, as is one whose `~` is followed by anything but `/`
/// (user-name expansion is unsupported there). For `~` alone or a `~/`-led
/// input the result is either the input unchanged or the home directory
/// followed by the rest, so either way some prefix followed by the part
/// after the `~`; which prefix depends on the environment.
#[verifier::external_body]
fn expand_tilde(s: &str) -> (r: String)
    ensures
        s@.len() == 0 || s@[0] != '~' ==> r@ == s@,
        s@.len() >= 2 && s@[0] == '~' && s@[1] != '/' ==> r@ == s@,
        (s@ =~= seq!['~'] || (s@.len() >= 2 && s@[0] == '~' && s@[1] == '/')) ==> exists|
            h: Seq<char>,
        | r@ == h + s@.subrange(1, s@.len() as int),
{
    shellexpand::tilde(s).into_owned()
}

} // verus!
