//! Unix paths held as text: joining, `~` expansion, and the paths derived
//! from the user's directories.

use vstd::prelude::*;
use crate::text::{chars_of, opt_text};

verus! {

/// What `PathBuf::join` gives on Unix: an absolute `p` replaces `base`;
/// otherwise `p` is appended, with a `/` between the two where `base` is
/// non-empty and does not already end in one.
pub open spec fn path_join(base: Seq<char>, p: Seq<char>) -> Seq<char> {
    if p.len() > 0 && p[0] == '/' {
        p
    } else if base.len() > 0 && base.last() != '/' {
        base + seq!['/'] + p
    } else {
        base + p
    }
}

/// `base` joined with `p`.
pub fn join_path(base: &str, p: &str) -> (r: String)
    ensures
        r@ == path_join(base@, p@),
{
    let pc = chars_of(p);
    if pc.len() > 0 && pc[0] == '/' {
        return String::from_str(p);
    }
    let bc = chars_of(base);
    let mut r = String::from_str(base);
    if bc.len() > 0 && bc[bc.len() - 1] != '/' {
        r.append("/");
        proof {
            reveal_strlit("/");
        }
    }
    r.append(p);
    r
}

/// Whether the path begins with the home directory's shorthand: it is `~`
/// alone, or begins with `~/`.
pub open spec fn starts_with_tilde(path: Seq<char>) -> bool {
    ||| path == seq!['~']
    ||| (path.len() >= 2 && path[0] == '~' && path[1] == '/')
}

/// A leading `~` expanded the way a shell does, given the home directory
/// (where one is known): `~` alone becomes the home directory, `~/rest`
/// becomes the home directory joined with `rest`, and every other path,
/// including one with a `~` further on, is left as it is.
pub open spec fn expand_tilde_for(path: Seq<char>, home: Option<Seq<char>>) -> Seq<char> {
    if path == seq!['~'] {
        match home {
            Some(h) => h,
            None => path,
        }
    } else if starts_with_tilde(path) {
        match home {
            Some(h) => path_join(h, path.skip(2)),
            None => path,
        }
    } else {
        path
    }
}

/// `path` with a leading `~` expanded against the home directory `home`
/// (`None` where none is known), the way a shell would: a configuration
/// value like `~/Pictures/Screenshots` would otherwise be taken literally.
pub fn expand_tilde(path: String, home: Option<String>) -> (r: String)
    ensures
        r@ == expand_tilde_for(path@, opt_text(home)),
{
    let pc = chars_of(path.as_str());
    if pc.len() == 1 && pc[0] == '~' {
        assert(path@ =~= seq!['~']);
        return match home {
            Some(h) => h,
            None => path,
        };
    }
    assert(path@ != seq!['~']);
    if pc.len() >= 2 && pc[0] == '~' && pc[1] == '/' {
        match home {
            Some(h) => {
                let rest = path.as_str().substring_char(2, pc.len());
                join_path(h.as_str(), rest)
            },
            None => path,
        }
    } else {
        path
    }
}

/// The user's directories, as the environment names them (`None` where it
/// names none): home, pictures and configuration.
#[derive(Debug)]
pub struct UserDirs {
    pub home: Option<String>,
    pub pictures: Option<String>,
    pub config: Option<String>,
}

/// The configuration file's path given the configuration and home
/// directories: `<config>/breadshot/config.toml`, where `<config>` falls back
/// to `<home>/.config` (and the home directory to the empty path).
pub open spec fn config_path_for(config: Option<Seq<char>>, home: Option<Seq<char>>) -> Seq<char> {
    let base = match config {
        Some(c) => c,
        None => path_join(
            match home {
                Some(h) => h,
                None => Seq::empty(),
            },
            ".config"@,
        ),
    };
    path_join(path_join(base, "breadshot"@), "config.toml"@)
}

/// The path of the configuration file: `breadshot/config.toml` in the user's
/// configuration directory.
pub fn default_path(dirs: &UserDirs) -> (r: String)
    ensures
        r@ == config_path_for(opt_text(dirs.config), opt_text(dirs.home)),
        dirs.config matches Some(c) ==> r@ == path_join(
            path_join(c@, "breadshot"@),
            "config.toml"@,
        ),
        dirs.config is None ==> r@ == path_join(
            path_join(
                path_join(
                    match dirs.home {
                        Some(h) => h@,
                        None => Seq::empty(),
                    },
                    ".config"@,
                ),
                "breadshot"@,
            ),
            "config.toml"@,
        ),
{
    let base = match &dirs.config {
        Some(c) => c.clone(),
        None => {
            let h = match &dirs.home {
                Some(h) => h.clone(),
                None => String::new(),
            };
            join_path(h.as_str(), ".config")
        },
    };
    let dir = join_path(base.as_str(), "breadshot");
    join_path(dir.as_str(), "config.toml")
}

/// Where the configuration directory is known it decides the file's place,
/// whatever the home directory: `<config>/breadshot/config.toml`. Only
/// without it does the home directory count, as `<home>/.config`.
pub proof fn law_config_dir_wins(config: Option<Seq<char>>, home: Option<Seq<char>>, other_home: Option<Seq<char>>)
    ensures
        config matches Some(c) ==> config_path_for(config, home) == path_join(
            path_join(c, "breadshot"@),
            "config.toml"@,
        ),
        config is Some ==> config_path_for(config, home) == config_path_for(config, other_home),
        config is None ==> config_path_for(config, home) == config_path_for(
            Some(
                path_join(
                    match home {
                        Some(h) => h,
                        None => Seq::empty(),
                    },
                    ".config"@,
                ),
            ),
            other_home,
        ),
{
}

/// A path that does not begin with `~` (either `~` alone or `~/…`) is left as
/// it is, with or without a home directory; without a home directory no path
/// changes; `~` alone becomes the home directory.
pub proof fn law_expand_tilde_only_leading(path: Seq<char>, home: Option<Seq<char>>)
    ensures
        !(path == seq!['~'] || (path.len() >= 2 && path[0] == '~' && path[1] == '/'))
            ==> expand_tilde_for(path, home) == path,
        home is None ==> expand_tilde_for(path, home) == path,
        path == seq!['~'] ==> (home matches Some(h) ==> expand_tilde_for(path, home) == h),
{
}

/// Joining a relative path appends it after the base and a single separator
/// where needed; an absolute path replaces the base.
pub proof fn law_path_join_shape(base: Seq<char>, p: Seq<char>)
    ensures
        p.len() > 0 && p[0] == '/' ==> path_join(base, p) == p,
        !(p.len() > 0 && p[0] == '/') ==> path_join(base, p).take(base.len() as int) == base,
        !(p.len() > 0 && p[0] == '/') ==> path_join(base, p).skip(
            path_join(base, p).len() - p.len(),
        ) == p,
        !(p.len() > 0 && p[0] == '/') && base.len() > 0 && base.last() != '/' ==> path_join(
            base,
            p,
        )[base.len() as int] == '/' && path_join(base, p).len() == base.len() + 1 + p.len(),
        !(p.len() > 0 && p[0] == '/') && (base.len() == 0 || base.last() == '/') ==> path_join(
            base,
            p,
        ).len() == base.len() + p.len(),
{
    let r = path_join(base, p);
    if !(p.len() > 0 && p[0] == '/') {
        if base.len() > 0 && base.last() != '/' {
            assert(r =~= base + seq!['/'] + p);
            assert(r.take(base.len() as int) =~= base);
            assert(r.skip(r.len() - p.len()) =~= p);
        } else {
            assert(r.take(base.len() as int) =~= base);
            assert(r.skip(r.len() - p.len()) =~= p);
        }
    }
}

} // verus!
