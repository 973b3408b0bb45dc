use clap_wrapper_bundler::paths::{file_name, join, parent, to_forward_slashes, with_extension};

#[test]
fn join_adds_a_separator() {
    assert_eq!(join("out", "My Plugin"), "out/My Plugin");
    assert_eq!(join("out/", "My Plugin"), "out/My Plugin");
    assert_eq!(join("", "My Plugin"), "My Plugin");
    assert_eq!(join("out", ""), "out/");
}

#[test]
fn join_with_an_absolute_path_replaces() {
    assert_eq!(join("out", "/etc/plugin"), "/etc/plugin");
}

#[test]
fn with_extension_replaces_the_last_extension() {
    assert_eq!(with_extension("out/plugin", "clap"), "out/plugin.clap");
    assert_eq!(with_extension("out/plugin.so", "clap"), "out/plugin.clap");
    assert_eq!(with_extension("out/My.Plugin", "vst3"), "out/My.vst3");
    assert_eq!(with_extension("out/archive.tar.gz", ""), "out/archive.tar");
    assert_eq!(with_extension("out/plugin/", "clap"), "out/plugin.clap");
}

#[test]
fn with_extension_keeps_a_leading_dot() {
    assert_eq!(with_extension(".hidden", "clap"), ".hidden.clap");
    assert_eq!(with_extension("dir/.hidden", ""), "dir/.hidden");
}

#[test]
fn with_extension_leaves_paths_without_file_name() {
    assert_eq!(with_extension("out/..", "clap"), "out/..");
    assert_eq!(with_extension("", "clap"), "");
    assert_eq!(with_extension("/", "clap"), "/");
}

#[test]
fn with_extension_twice_is_once() {
    let once = with_extension("out/plugin.so", "dylib");
    assert_eq!(with_extension(&with_extension("out/plugin.so", "clap"), "dylib"), once);
}

#[test]
fn file_name_is_the_last_component() {
    assert_eq!(file_name("a/b/c.so").as_deref(), Some("c.so"));
    assert_eq!(file_name("a/b/").as_deref(), Some("b"));
    assert_eq!(file_name("plugin").as_deref(), Some("plugin"));
    assert_eq!(file_name("a/.."), None);
    assert_eq!(file_name("."), None);
    assert_eq!(file_name("/"), None);
    assert_eq!(file_name(""), None);
}

#[test]
fn join_keeps_the_file_name() {
    assert_eq!(file_name(&join("out", "dir/plugin.so")).as_deref(), Some("plugin.so"));
}

#[test]
fn parent_drops_the_last_component() {
    assert_eq!(parent("a/b/c.so").as_deref(), Some("a/b"));
    assert_eq!(parent("a//c.so").as_deref(), Some("a"));
    assert_eq!(parent("/c.so").as_deref(), Some("/"));
    assert_eq!(parent("c.so").as_deref(), Some(""));
    assert_eq!(parent("/"), None);
    assert_eq!(parent(""), None);
}

#[test]
fn trailing_dot_components_are_ignored() {
    assert_eq!(file_name("a/.").as_deref(), Some("a"));
    assert_eq!(file_name("a/b/./").as_deref(), Some("b"));
    assert_eq!(file_name("./."), None);
    assert_eq!(file_name("/."), None);
    assert_eq!(file_name("a/b."), Some("b.".to_string()));
    assert_eq!(with_extension("a/b/.", "clap"), "a/b.clap");
    assert_eq!(parent("a/.").as_deref(), Some(""));
    assert_eq!(parent("a/./b").as_deref(), Some("a"));
    assert_eq!(parent("./.").as_deref(), Some(""));
}

#[test]
fn backslashes_become_forward_slashes() {
    assert_eq!(to_forward_slashes("C:\\plugins\\libsynth.dll"), "C:/plugins/libsynth.dll");
    assert_eq!(to_forward_slashes("already/forward"), "already/forward");
    assert_eq!(to_forward_slashes(""), "");
    assert_eq!(parent(&to_forward_slashes("C:\\plugins\\libsynth.dll")), Some("C:/plugins".to_string()));
}
