//! Where the application keeps its files.

use std::path::PathBuf;
use vstd::prelude::*;

use crate::paths::{below, copy_path, join_text};

verus! {

/// The platforms that differ in where files go.
#[derive(Clone, Copy, Debug, Eq, PartialEq, Structural)]
pub enum Platform {
    Linux,
    MacOs,
    Windows,
    OtherUnix,
    Other,
}

/// What the environment says about folders.
#[derive(Debug)]
pub struct Environment {
    pub platform: Platform,
    pub temp_dir: PathBuf,
    pub home: Option<PathBuf>,
    pub xdg_cache_home: Option<PathBuf>,
    pub xdg_config_home: Option<PathBuf>,
    pub local_app_data: Option<PathBuf>,
    pub app_data: Option<PathBuf>,
}

/// The settings.
#[derive(Debug)]
pub struct Config {
    pub build_path: PathBuf,
    pub cache_path: PathBuf,
}

/// The folder that images are built in unless another is set.
pub open spec fn default_build_path(e: Environment) -> PathBuf {
    below(e.temp_dir, "bouwer"@)
}

/// The folder for cached data unless another is set.
pub open spec fn default_cache_path(e: Environment) -> PathBuf {
    match e.home {
        Some(home) => match e.platform {
            Platform::MacOs => below(below(below(home, "Library"@), "Caches"@), "bouwer"@),
            Platform::Windows => below(
                below(
                    match e.local_app_data {
                        Some(p) => p,
                        None => default_build_path(e),
                    },
                    "bouwer"@,
                ),
                "cache"@,
            ),
            _ => below(
                match e.xdg_cache_home {
                    Some(p) => p,
                    None => below(home, ".cache"@),
                },
                "bouwer"@,
            ),
        },
        None => below(default_build_path(e), "cache"@),
    }
}

/// The folder that holds the settings folder.
pub open spec fn config_base(e: Environment) -> PathBuf {
    match e.xdg_config_home {
        Some(p) => p,
        None => match e.home {
            Some(home) => match e.platform {
                Platform::MacOs => below(below(home, "Library"@), "Application Support"@),
                Platform::Windows => match e.app_data {
                    Some(p) => p,
                    None => home,
                },
                _ => below(home, ".config"@),
            },
            None => e.temp_dir,
        },
    }
}

/// The file with the settings.
pub open spec fn config_file(e: Environment) -> PathBuf {
    below(below(config_base(e), "bouwer"@), "config.json"@)
}

/// The variable that names the user's home.
pub fn home_variable(platform: Platform) -> (r: &'static str)
    ensures
        r@ == if platform is Windows {
            "USERPROFILE"@
        } else {
            "HOME"@
        },
{
    match platform {
        Platform::Windows => "USERPROFILE",
        _ => "HOME",
    }
}

impl Config {
    /// The settings for an environment in which none were saved.
    pub fn default_for(e: &Environment) -> (r: Config)
        ensures
            r.build_path == default_build_path(*e),
            r.cache_path == default_cache_path(*e),
    {
        let build_path: PathBuf = join_text(&e.temp_dir, "bouwer");
        let cache_path: PathBuf = match &e.home {
            Some(home) => match e.platform {
                Platform::MacOs => join_text(
                    &join_text(&join_text(home, "Library"), "Caches"),
                    "bouwer",
                ),
                Platform::Windows => {
                    let base: PathBuf = match &e.local_app_data {
                        Some(p) => copy_path(p),
                        None => copy_path(&build_path),
                    };
                    join_text(&join_text(&base, "bouwer"), "cache")
                },
                _ => {
                    let base: PathBuf = match &e.xdg_cache_home {
                        Some(p) => copy_path(p),
                        None => join_text(home, ".cache"),
                    };
                    join_text(&base, "bouwer")
                },
            },
            None => join_text(&build_path, "cache"),
        };
        Config { build_path, cache_path }
    }

    /// The file with the settings.
    pub fn config_file_path(e: &Environment) -> (r: PathBuf)
        ensures
            r == config_file(*e),
    {
        let base: PathBuf = match &e.xdg_config_home {
            Some(p) => copy_path(p),
            None => match &e.home {
                Some(home) => match e.platform {
                    Platform::MacOs => join_text(
                        &join_text(home, "Library"),
                        "Application Support",
                    ),
                    Platform::Windows => match &e.app_data {
                        Some(p) => copy_path(p),
                        None => copy_path(home),
                    },
                    _ => join_text(home, ".config"),
                },
                None => copy_path(&e.temp_dir),
            },
        };
        join_text(&join_text(&base, "bouwer"), "config.json")
    }

    /// The settings to start with: those saved, or else the defaults, which are
    /// then to be saved.
    pub fn chosen(saved: Option<Config>, e: &Environment) -> (r: (Config, bool))
        ensures
            match saved {
                Some(c) => r.0 == c && !r.1,
                None => r.0.build_path == default_build_path(*e) && r.0.cache_path
                    == default_cache_path(*e) && r.1,
            },
    {
        match saved {
            Some(c) => (c, false),
            None => (Config::default_for(e), true),
        }
    }
}

impl Clone for Config {
    fn clone(&self) -> (r: Config)
        ensures
            r == *self,
    {
        Config {
            build_path: copy_path(&self.build_path),
            cache_path: copy_path(&self.cache_path),
        }
    }
}

/// The settings are in the folder that is set for them, else in the usual one
/// of the platform below the user's home, else in the folder for what is
/// temporary.
pub proof fn law_config_file(e: Environment)
    ensures
        e.xdg_config_home matches Some(p) ==> config_file(e) == below(
            below(p, "bouwer"@),
            "config.json"@,
        ),
        e.xdg_config_home is None && e.home is None ==> config_file(e) == below(
            below(e.temp_dir, "bouwer"@),
            "config.json"@,
        ),
        e.xdg_config_home is None && e.home is Some && (e.platform is Linux
            || e.platform is OtherUnix || e.platform is Other) ==> config_file(e) == below(
            below(below(e.home->0, ".config"@), "bouwer"@),
            "config.json"@,
        ),
        e.xdg_config_home is None && e.home is Some && e.platform is MacOs ==> config_file(e)
            == below(
            below(below(below(e.home->0, "Library"@), "Application Support"@), "bouwer"@),
            "config.json"@,
        ),
        e.xdg_config_home is None && e.home is Some && e.platform is Windows ==> config_file(e)
            == below(
            below(
                if e.app_data is Some {
                    e.app_data->0
                } else {
                    e.home->0
                },
                "bouwer"@,
            ),
            "config.json"@,
        ),
{
}

/// Images are built below the folder for what is temporary. Cached data is in
/// the platform's folder for it, below the user's home or where the environment
/// puts it, and without a home below the folder for images.
pub proof fn law_default_paths(e: Environment)
    ensures
        default_build_path(e) == below(e.temp_dir, "bouwer"@),
        e.home is None ==> default_cache_path(e) == below(
            below(e.temp_dir, "bouwer"@),
            "cache"@,
        ),
        e.home is Some && e.platform is MacOs ==> default_cache_path(e) == below(
            below(below(e.home->0, "Library"@), "Caches"@),
            "bouwer"@,
        ),
        e.home is Some && e.platform is Windows && e.local_app_data is Some
            ==> default_cache_path(e) == below(below(e.local_app_data->0, "bouwer"@), "cache"@),
        e.home is Some && e.platform is Windows && e.local_app_data is None
            ==> default_cache_path(e) == below(
            below(below(e.temp_dir, "bouwer"@), "bouwer"@),
            "cache"@,
        ),
        e.home is Some && !(e.platform is MacOs) && !(e.platform is Windows)
            && e.xdg_cache_home is Some ==> default_cache_path(e) == below(
            e.xdg_cache_home->0,
            "bouwer"@,
        ),
        e.home is Some && !(e.platform is MacOs) && !(e.platform is Windows)
            && e.xdg_cache_home is None ==> default_cache_path(e) == below(
            below(e.home->0, ".cache"@),
            "bouwer"@,
        ),
{
}

} // verus!
