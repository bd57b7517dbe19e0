use cargo_rbext::options::{lookup_opt, Opt, Options};
use cargo_rbext::paths::{basename, joined_path};

fn args(v: &[&str]) -> Vec<String> {
    v.iter().map(|s| s.to_string()).collect()
}

#[test]
fn basename_takes_part_after_last_slash() {
    assert_eq!(basename("a/b/c"), "c");
    assert_eq!(basename("abc"), "abc");
    assert_eq!(basename("a/"), "");
    assert_eq!(basename(""), "");
    assert_eq!(basename("/x"), "x");
    assert_eq!(basename(basename("dir/sub/name")), "name");
}

#[test]
fn joined_path_keeps_start_and_parts() {
    let p = joined_path(".", &["target", "release", "libfoo.so"]);
    assert_eq!(p.start, ".");
    assert_eq!(p.parts, vec!["target".to_string(), "release".to_string(), "libfoo.so".to_string()]);
    let q = joined_path("/x", &[]);
    assert_eq!(q.start, "/x");
    assert!(q.parts.is_empty());
}

#[test]
fn lookup_opt_knows_the_table() {
    assert_eq!(lookup_opt("--lib"), Some(Opt::NoArg));
    assert_eq!(lookup_opt("-q"), Some(Opt::NoArg));
    assert_eq!(lookup_opt("--name"), Some(Opt::OneArg));
    assert_eq!(lookup_opt("-h"), Some(Opt::OneArg));
    assert_eq!(lookup_opt("--vcs"), Some(Opt::OneArg));
    assert_eq!(lookup_opt("--nope"), None);
    assert_eq!(lookup_opt("lib"), None);
}

#[test]
fn new_lib_from_readme() {
    let o = Options::new(args(&["--lib", "my_ext_name"])).unwrap();
    assert!(o.is_lib());
    assert!(!o.help);
    assert_eq!(o.path(), "my_ext_name");
    assert_eq!(o.name(), "my_ext_name");
    assert_eq!(o.ext_name(), "my_ext_name");
    assert_eq!(o.cargo_args(), &args(&["--lib", "my_ext_name"])[..]);
}

#[test]
fn new_program_from_readme() {
    let o = Options::new(args(&["my_prog_name"])).unwrap();
    assert!(!o.is_lib());
    assert_eq!(o.cargo_args(), &args(&["my_prog_name"])[..]);
}

#[test]
fn name_is_kept_back_and_appended() {
    let o = Options::new(args(&["--name", "foo/bar", "--lib", "--vcs", "git", "dir/pkg"])).unwrap();
    assert_eq!(o.path(), "dir/pkg");
    assert_eq!(o.name(), "bar");
    assert_eq!(o.ext_name(), "foo/bar");
    assert_eq!(
        o.cargo_args(),
        &args(&["--lib", "--vcs", "git", "dir/pkg", "--name", "bar"])[..]
    );
    let p = Options::new(args(&["--name", "foo/bar", "dir/pkg"])).unwrap();
    assert_eq!(p.cargo_args(), &args(&["dir/pkg", "--name", "foo/bar"])[..]);
    assert_eq!(p.name(), "bar");
}

#[test]
fn path_base_name_without_name_option() {
    let o = Options::new(args(&["some/where/ext"])).unwrap();
    assert_eq!(o.name(), "ext");
    assert_eq!(o.ext_name(), "ext");
}

#[test]
fn rejected_command_lines() {
    assert!(Options::new(args(&[])).is_none());
    assert!(Options::new(args(&["--lib"])).is_none());
    assert!(Options::new(args(&["a", "b"])).is_none());
    assert!(Options::new(args(&["--unknown", "a"])).is_none());
    assert!(Options::new(args(&["a", "--name"])).is_none());
    assert!(Options::new(args(&["-h"])).is_none());
}

#[test]
fn help_takes_a_value() {
    let o = Options::new(args(&["-h", "x", "pkg"])).unwrap();
    assert!(o.help);
    assert_eq!(o.cargo_args(), &args(&["-h", "x", "pkg"])[..]);
    let p = Options::new(args(&["pkg", "--help", "y"])).unwrap();
    assert!(p.help);
    assert_eq!(p.path(), "pkg");
}

#[test]
fn empty_argument_is_a_path() {
    let o = Options::new(args(&[""])).unwrap();
    assert_eq!(o.path(), "");
}
