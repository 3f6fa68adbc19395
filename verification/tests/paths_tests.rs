use mmp::args::{Cli, Commands, ListArgs};
use mmp::session::App;

fn app(path: &str, name: &str) -> App {
    App::new(Cli {
        command: Commands::List(ListArgs::default()),
        pwd_path: path.to_string(),
        pwd_name: name.to_string(),
    })
}

#[test]
fn join_adds_a_separator() {
    assert_eq!(App::join_dir_name("/a/b", "c.yaml"), "/a/b/c.yaml");
    assert_eq!(App::join_dir_name("/a/b/", "c.yaml"), "/a/b/c.yaml");
    assert_eq!(App::join_dir_name("", "c.yaml"), "c.yaml");
}

#[test]
fn join_with_absolute_name_replaces() {
    assert_eq!(App::join_dir_name("/a/b", "/etc/x"), "/etc/x");
}

#[test]
fn expand_tilde_uses_home() {
    let home = Some("/home/u".to_string());
    assert_eq!(App::expand_tilde("~/.local/share/mmp/", &home), "/home/u/.local/share/mmp/");
    assert_eq!(App::expand_tilde("~/", &home), "/home/u/");
}

#[test]
fn expand_tilde_keeps_other_paths() {
    let home = Some("/home/u".to_string());
    assert_eq!(App::expand_tilde("/tmp/x", &home), "/tmp/x");
    assert_eq!(App::expand_tilde("~x/y", &home), "~x/y");
    assert_eq!(App::expand_tilde("~", &home), "~");
    assert_eq!(App::expand_tilde("~/a", &None), "~/a");
}

#[test]
fn store_path_of_defaults() {
    let a = app("~/.local/share/mmp/", "pwd.yaml");
    assert_eq!(
        a.store_path(&Some("/home/u".to_string())),
        "/home/u/.local/share/mmp/pwd.yaml"
    );
    assert_eq!(a.store_path(&None), "~/.local/share/mmp/pwd.yaml");
}
