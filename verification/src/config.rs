use vstd::prelude::*;

use crate::text::TextSource;

verus! {

/// The colour theme the reader uses.
#[derive(Debug, Clone, Copy, PartialEq, Eq, Structural)]
pub enum ThemePreference {
    Hybrid,
}

impl Default for ThemePreference {
    /// The hybrid theme.
    fn default() -> (r: ThemePreference)
        ensures
            r == ThemePreference::Hybrid,
    {
        ThemePreference::Hybrid
    }
}

/// The version of the configuration layout that this library writes.
pub const CONFIG_SCHEMA_VERSION: u32 = 1;

/// The primary pane's width in a new configuration, in percent.
pub const DEFAULT_SPLIT_PRIMARY_WIDTH: u16 = 50;

/// The reader's settings.
#[derive(Debug, Clone, PartialEq, Eq)]
pub struct Config {
    pub schema_version: u32,
    pub theme: ThemePreference,
    pub zen_mode: bool,
    pub split_primary_width: u16,
    pub tex_compiler_path: Option<String>,
}

impl Default for Config {
    /// The settings of a fresh install: the current layout, the hybrid theme,
    /// zen mode off, an even split, and Tectonic found on the search path.
    fn default() -> (r: Config)
        ensures
            r.schema_version == CONFIG_SCHEMA_VERSION,
            r.theme == ThemePreference::Hybrid,
            r.zen_mode == false,
            r.split_primary_width == DEFAULT_SPLIT_PRIMARY_WIDTH,
            r.tex_compiler_path is None,
    {
        Config {
            schema_version: CONFIG_SCHEMA_VERSION,
            theme: ThemePreference::Hybrid,
            zen_mode: false,
            split_primary_width: DEFAULT_SPLIT_PRIMARY_WIDTH,
            tex_compiler_path: None,
        }
    }
}

/// Where the configuration is kept on disk.
#[derive(Debug, Clone, PartialEq, Eq)]
pub struct ConfigStore {
    path: String,
}

impl View for ConfigStore {
    type V = Seq<char>;

    closed spec fn view(&self) -> Seq<char> {
        self.path@
    }
}

impl ConfigStore {
    /// A store at `path`.
    pub fn new<P: TextSource>(path: P) -> (r: ConfigStore)
        ensures
            r@ == path.text_of(),
    {
        ConfigStore { path: path.into_string() }
    }

    /// The file the configuration is kept in.
    pub fn path(&self) -> (r: &str)
        ensures
            r@ == self@,
    {
        self.path.as_str()
    }

    /// What making sure the file exists has to write, given whether it
    /// exists: nothing when it does, else the default configuration.
    pub fn ensure_exists(&self, exists: bool) -> (r: Option<Config>)
        ensures
            exists ==> r is None,
            !exists ==> (r matches Some(c) && c.schema_version == CONFIG_SCHEMA_VERSION
                && c.theme == ThemePreference::Hybrid && c.zen_mode == false
                && c.split_primary_width == DEFAULT_SPLIT_PRIMARY_WIDTH && c.tex_compiler_path is None),
    {
        if exists {
            None
        } else {
            Some(Config::default())
        }
    }
}

} // verus!
