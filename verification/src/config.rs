//! The configuration as the earlier layout of the settings file holds it, with
//! the link that points at the active version.

use vstd::prelude::*;
use crate::model::ArchSpec;

verus! {

/// The configuration of the version manager.
#[derive(Clone, Debug)]
pub struct Config {
    pub root: Option<String>,
    pub proxy: Option<String>,
    pub node_mirror: Option<String>,
    pub npm_mirror: Option<String>,
    pub arch: Option<ArchSpec>,
    pub originalpath: Option<String>,
    pub originalversion: Option<String>,
    pub symlink: Option<String>,
}

/// The configuration with no field set.
pub open spec fn default_config() -> Config {
    Config {
        root: None,
        proxy: None,
        node_mirror: None,
        npm_mirror: None,
        arch: None,
        originalpath: None,
        originalversion: None,
        symlink: None,
    }
}

impl Default for Config {
    fn default() -> (r: Config)
        ensures
            r == default_config(),
    {
        Config {
            root: None,
            proxy: None,
            node_mirror: None,
            npm_mirror: None,
            arch: None,
            originalpath: None,
            originalversion: None,
            symlink: None,
        }
    }
}

/// `r` is a result of `load` with these reads: one of the values that the
/// reads can return, taken in order, or the default where both gave nothing.
pub open spec fn load_result<F: FnOnce() -> Option<Config>, G: FnOnce() -> Option<Config>>(
    read_toml: F,
    read_txt: G,
    r: Config,
) -> bool {
    ||| read_toml.ensures((), Some(r))
    ||| read_toml.ensures((), None) && read_txt.ensures((), Some(r))
    ||| read_toml.ensures((), None) && read_txt.ensures((), None) && r == default_config()
}

impl Config {
    /// Loads the configuration: from `settings.toml` where `read_toml` gives
    /// one, else from `settings.txt` where `read_txt` gives one, else the
    /// default. `read_txt` is called only where `read_toml` gave nothing. A
    /// read gives nothing where its format is not compiled in or its file does
    /// not exist.
    pub fn load<F: FnOnce() -> Option<Config>, G: FnOnce() -> Option<Config>>(
        read_toml: F,
        read_txt: G,
    ) -> (r: Config)
        requires
            read_toml.requires(()),
            forall|x: Option<Config>| read_toml.ensures((), x) && x is None ==> read_txt.requires(()),
        ensures
            load_result(read_toml, read_txt, r),
    {
        let config = read_toml();
        if config.is_some() {
            return config.unwrap();
        }
        let config = read_txt();
        if config.is_some() {
            return config.unwrap();
        }
        Config::default()
    }
}

} // verus!
