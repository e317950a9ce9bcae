//! The user's configuration and its defaults.

use vstd::prelude::*;
use crate::paths::{expand_tilde, expand_tilde_for, join_path, path_join, UserDirs};
use crate::text::opt_text;

verus! {

/// The configuration: where screenshots are saved, whether notifications are
/// suppressed and the screen frozen by default, how long a notification
/// shows (milliseconds), and the `strftime` format of generated file names.
#[derive(Debug)]
pub struct Config {
    pub save_dir: String,
    pub silent: bool,
    pub freeze: bool,
    pub notif_timeout: u32,
    pub date_format: String,
}

/// The notification duration that the defaults give, in milliseconds.
pub const DEFAULT_NOTIF_TIMEOUT: u32 = 5000;

/// The directory screenshots go to by default: `Screenshots` in the pictures
/// directory, which without one is `Pictures` in the home directory (the
/// empty path standing for an unknown home), so `~/Pictures/Screenshots`.
pub open spec fn default_save_dir(pictures: Option<Seq<char>>, home: Option<Seq<char>>) -> Seq<
    char,
> {
    let base = match pictures {
        Some(p) => p,
        None => path_join(
            match home {
                Some(h) => h,
                None => Seq::empty(),
            },
            "Pictures"@,
        ),
    };
    path_join(base, "Screenshots"@)
}

impl Config {
    /// Whether this is the default configuration for the given pictures and
    /// home directories: screenshots go to `default_save_dir`, nothing is
    /// silenced or frozen, notifications show for 5000 ms, and file names
    /// are dated `%Y-%m-%d-%H%M%S`.
    pub open spec fn is_default_for(
        self,
        pictures: Option<Seq<char>>,
        home: Option<Seq<char>>,
    ) -> bool {
        &&& self.save_dir@ == default_save_dir(pictures, home)
        &&& !self.silent
        &&& !self.freeze
        &&& self.notif_timeout == DEFAULT_NOTIF_TIMEOUT
        &&& self.date_format@ == "%Y-%m-%d-%H%M%S"@
    }

    /// The default configuration for the user's directories.
    pub fn defaults_for(dirs: &UserDirs) -> (c: Config)
        ensures
            c.is_default_for(opt_text(dirs.pictures), opt_text(dirs.home)),
    {
        let base = match &dirs.pictures {
            Some(p) => p.clone(),
            None => {
                let h = match &dirs.home {
                    Some(h) => h.clone(),
                    None => String::new(),
                };
                join_path(h.as_str(), "Pictures")
            },
        };
        Config {
            save_dir: join_path(base.as_str(), "Screenshots"),
            silent: false,
            freeze: false,
            notif_timeout: DEFAULT_NOTIF_TIMEOUT,
            date_format: String::from_str("%Y-%m-%d-%H%M%S"),
        }
    }

    /// The configuration in effect, given what the configuration file held
    /// (`None` where there is no file) and the user's directories: the
    /// defaults without a file; otherwise the file's values, with a leading
    /// `~` of the save directory expanded to the home directory.
    pub fn load(file: Option<Config>, dirs: &UserDirs) -> (c: Config)
        ensures
            file is None ==> c.is_default_for(opt_text(dirs.pictures), opt_text(dirs.home)),
            file matches Some(f) ==> {
                &&& c.save_dir@ == expand_tilde_for(f.save_dir@, opt_text(dirs.home))
                &&& c.silent == f.silent
                &&& c.freeze == f.freeze
                &&& c.notif_timeout == f.notif_timeout
                &&& c.date_format@ == f.date_format@
            },
    {
        match file {
            None => Config::defaults_for(dirs),
            Some(f) => {
                let home = match &dirs.home {
                    Some(h) => Some(h.clone()),
                    None => None,
                };
                Config {
                    save_dir: expand_tilde(f.save_dir, home),
                    silent: f.silent,
                    freeze: f.freeze,
                    notif_timeout: f.notif_timeout,
                    date_format: f.date_format,
                }
            },
        }
    }
}

} // verus!
