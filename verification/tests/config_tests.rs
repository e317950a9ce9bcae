use breadshot::config::Config;
use breadshot::paths::{default_path, expand_tilde, join_path, UserDirs};
use std::path::PathBuf;

fn home_text() -> Option<String> {
    dirs::home_dir().map(|p| p.into_os_string().into_string().unwrap())
}

fn user_dirs(home: Option<&str>, pictures: Option<&str>, config: Option<&str>) -> UserDirs {
    UserDirs {
        home: home.map(String::from),
        pictures: pictures.map(String::from),
        config: config.map(String::from),
    }
}

#[test]
fn expand_tilde_prefix() {
    let home = dirs::home_dir().unwrap();
    assert_eq!(
        PathBuf::from(expand_tilde(String::from("~/Pictures/Screenshots"), home_text())),
        home.join("Pictures/Screenshots")
    );
}

#[test]
fn expand_tilde_bare() {
    let home = dirs::home_dir().unwrap();
    assert_eq!(PathBuf::from(expand_tilde(String::from("~"), home_text())), home);
}

#[test]
fn expand_tilde_absolute_untouched() {
    let p = String::from("/var/tmp/shots");
    assert_eq!(expand_tilde(p.clone(), home_text()), p);
}

#[test]
fn expand_tilde_no_expansion_mid_path() {
    // Only a leading ~ is special, matching shell behavior.
    let p = String::from("/home/user/~weird");
    assert_eq!(expand_tilde(p.clone(), home_text()), p);
}

#[test]
fn expand_tilde_with_known_home() {
    let home = Some(String::from("/home/ana"));
    assert_eq!(expand_tilde(String::from("~"), home.clone()), "/home/ana");
    assert_eq!(
        expand_tilde(String::from("~/Pictures/Screenshots"), home.clone()),
        "/home/ana/Pictures/Screenshots"
    );
    assert_eq!(expand_tilde(String::from("~/"), home.clone()), "/home/ana/");
    assert_eq!(expand_tilde(String::from("~ana/x"), home.clone()), "~ana/x");
    assert_eq!(expand_tilde(String::from("rel/~"), home.clone()), "rel/~");
    assert_eq!(expand_tilde(String::from(""), home), "");
}

#[test]
fn expand_tilde_without_home_leaves_path() {
    assert_eq!(expand_tilde(String::from("~"), None), "~");
    assert_eq!(expand_tilde(String::from("~/a"), None), "~/a");
}

#[test]
fn expand_tilde_home_with_trailing_slash_and_absolute_rest() {
    let home = Some(String::from("/home/ana/"));
    assert_eq!(expand_tilde(String::from("~/a"), home.clone()), "/home/ana/a");
    assert_eq!(expand_tilde(String::from("~//etc"), home), "/etc");
}

#[test]
fn join_path_follows_pathbuf_join() {
    for (base, p) in [
        ("/home/ana", "Screenshots"),
        ("/home/ana/", "Screenshots"),
        ("", "Screenshots"),
        ("/home/ana", "/tmp/x.png"),
        ("/home/ana", ""),
        ("a", "b/c"),
    ] {
        let expected = PathBuf::from(base).join(p);
        assert_eq!(join_path(base, p), expected.to_str().unwrap());
    }
}

#[test]
fn default_path_for_directories() {
    assert_eq!(
        default_path(&user_dirs(Some("/home/ana"), None, Some("/home/ana/.config"))),
        "/home/ana/.config/breadshot/config.toml"
    );
    assert_eq!(
        default_path(&user_dirs(Some("/home/ana"), None, None)),
        "/home/ana/.config/breadshot/config.toml"
    );
    assert_eq!(default_path(&user_dirs(None, None, None)), ".config/breadshot/config.toml");
}

#[test]
fn defaults_for_directories() {
    let c = Config::defaults_for(&user_dirs(Some("/home/ana"), Some("/home/ana/Bilder"), None));
    assert_eq!(c.save_dir, "/home/ana/Bilder/Screenshots");
    assert!(!c.silent);
    assert!(!c.freeze);
    assert_eq!(c.notif_timeout, 5000);
    assert_eq!(c.date_format, "%Y-%m-%d-%H%M%S");
    // Without a pictures directory, screenshots go to ~/Pictures/Screenshots.
    let c = Config::defaults_for(&user_dirs(Some("/home/ana"), None, None));
    assert_eq!(c.save_dir, "/home/ana/Pictures/Screenshots");
    let c = Config::defaults_for(&user_dirs(None, None, None));
    assert_eq!(c.save_dir, "Pictures/Screenshots");
}

#[test]
fn load_without_file_gives_defaults() {
    let c = Config::load(None, &user_dirs(Some("/home/ana"), None, None));
    assert_eq!(c.save_dir, "/home/ana/Pictures/Screenshots");
    assert_eq!(c.notif_timeout, 5000);
    assert_eq!(c.date_format, "%Y-%m-%d-%H%M%S");
    assert!(!c.silent && !c.freeze);
}

#[test]
fn load_expands_save_dir() {
    let file = Config {
        save_dir: String::from("~/Pictures/Screenshots"),
        silent: true,
        freeze: true,
        notif_timeout: 1200,
        date_format: String::from("%s"),
    };
    let c = Config::load(Some(file), &user_dirs(Some("/home/ana"), None, None));
    assert_eq!(c.save_dir, "/home/ana/Pictures/Screenshots");
    assert!(c.silent && c.freeze);
    assert_eq!(c.notif_timeout, 1200);
    assert_eq!(c.date_format, "%s");
}

#[test]
fn load_keeps_absolute_save_dir() {
    let file = Config {
        save_dir: String::from("/srv/shots"),
        silent: false,
        freeze: false,
        notif_timeout: 0,
        date_format: String::new(),
    };
    assert_eq!(Config::load(Some(file), &user_dirs(Some("/home/ana"), None, None)).save_dir, "/srv/shots");
}
