use cargo_rbext::commands::{
    build_copy_paths, build_output_dir, cargo_command_line, cargo_new_command_line, contains_arg,
    install_cargo_args, install_copy_paths, invocation, is_help_request, manifest_path,
    new_project_steps, root_dir, ruby_ext_manifest_path, to_str_opt, Invocation, NewStep,
    RootSearch, Template,
};
use cargo_rbext::manifest::{
    cdylib_file_name, cdylib_name, cdylib_name_from, extension_name, Extension, ManifestError,
    Platform, RubyExt,
};
use cargo_rbext::options::Options;
use cargo_rbext::paths::JoinedPath;

fn parts(p: &JoinedPath) -> (String, Vec<String>) {
    (p.start.clone(), p.parts.clone())
}

fn jp(start: &str, ps: &[&str]) -> (String, Vec<String>) {
    (start.to_string(), ps.iter().map(|s| s.to_string()).collect())
}

fn args(v: &[&str]) -> Vec<String> {
    v.iter().map(|s| s.to_string()).collect()
}

#[test]
fn to_str_opt_borrows() {
    assert_eq!(to_str_opt(&Some("x".to_string())), Some("x"));
    assert_eq!(to_str_opt(&None), None);
}

#[test]
fn invocation_reads_subcommand() {
    match invocation(&args(&["rbext", "new", "--lib", "x"])) {
        Invocation::New(rest) => assert_eq!(rest, args(&["--lib", "x"])),
        _ => panic!("expected new"),
    }
    match invocation(&args(&["build", "--release"])) {
        Invocation::Build(rest) => assert_eq!(rest, args(&["--release"])),
        _ => panic!("expected build"),
    }
    match invocation(&args(&["rbext", "install"])) {
        Invocation::Install(rest) => assert!(rest.is_empty()),
        _ => panic!("expected install"),
    }
    match invocation(&args(&["frob", "a"])) {
        Invocation::Unknown(s) => assert_eq!(s, "frob"),
        _ => panic!("expected unknown"),
    }
    assert!(matches!(invocation(&args(&[])), Invocation::Usage));
    assert!(matches!(invocation(&args(&["rbext"])), Invocation::Usage));
}

#[test]
fn command_lines_quote_spaces() {
    assert_eq!(
        cargo_command_line("build", &args(&["--release", "a b"])),
        "  Run comamnd: cargo build --release \"a b\""
    );
    assert_eq!(cargo_command_line("build", &[]), "  Run comamnd: cargo build");
    assert_eq!(
        cargo_new_command_line(&args(&["--lib", "my ext"])),
        "  Run comamnd: cargo new --lib \"my ext\""
    );
}

#[test]
fn help_and_release_flags() {
    assert!(is_help_request(&args(&["x", "-h"])));
    assert!(is_help_request(&args(&["--help"])));
    assert!(!is_help_request(&args(&["--helpme"])));
    assert!(contains_arg(&args(&["a", "b"]), "b"));
    assert!(!contains_arg(&args(&[]), "b"));
    assert_eq!(build_output_dir(&args(&["--release"])), "target/release");
    assert_eq!(build_output_dir(&args(&["-v"])), "target/debug");
}

#[test]
fn build_and_install_paths() {
    let p = build_copy_paths("./..", &args(&[]), "libfoo.so", "sub/foo.so");
    assert_eq!(parts(&p.from), jp("./..", &["target/debug", "libfoo.so"]));
    assert_eq!(parts(&p.to), jp("./..", &["target/debug", "foo.so"]));
    let q = build_copy_paths(".", &args(&["--release"]), "libfoo.dylib", "foo.bundle");
    assert_eq!(parts(&q.from), jp(".", &["target/release", "libfoo.dylib"]));
    assert_eq!(parts(&q.to), jp(".", &["target/release", "foo.bundle"]));
    let i = install_copy_paths(".", "/usr/lib/ruby/site", "libfoo.so", "dir/foo.so");
    assert_eq!(parts(&i.from), jp(".", &["target", "release", "libfoo.so"]));
    assert_eq!(parts(&i.to), jp("/usr/lib/ruby/site", &["dir/foo.so"]));
    assert_eq!(install_cargo_args(args(&["-v"])), args(&["-v", "--release"]));
}

#[test]
fn root_search_steps() {
    assert_eq!(parts(&manifest_path(".")), jp(".", &["Cargo.toml"]));
    assert_eq!(parts(&ruby_ext_manifest_path("./..")), jp("./..", &["RubyExt.toml"]));
    match root_dir(true, false) {
        RootSearch::Ascend(p) => assert_eq!(p, ".."),
        _ => panic!("expected to go up"),
    }
    assert!(matches!(root_dir(true, true), RootSearch::Found));
    assert!(matches!(root_dir(false, false), RootSearch::Missing));
    assert!(matches!(root_dir(false, true), RootSearch::Missing));
}

#[test]
fn library_file_names() {
    assert_eq!(cdylib_file_name("foo", Platform::Unix), "libfoo.so");
    assert_eq!(cdylib_file_name("foo", Platform::MacOs), "libfoo.dylib");
    assert_eq!(cdylib_file_name("foo", Platform::Windows), "foo.dll");
    assert_eq!(
        cdylib_name_from(Some("a".to_string()), Some("b".to_string()), Platform::Unix),
        Some("liba.so".to_string())
    );
    assert_eq!(
        cdylib_name_from(None, Some("b".to_string()), Platform::Unix),
        Some("libb.so".to_string())
    );
    assert_eq!(cdylib_name_from(None, None, Platform::Unix), None);
}

#[test]
fn cdylib_name_reads_manifest() {
    let m = "[package]\nname = \"my_ext\"\nversion = \"0.1.0\"\n";
    assert_eq!(cdylib_name(m, Platform::Unix).unwrap(), "libmy_ext.so");
    let l = "[package]\nname = \"pkg\"\n\n[lib]\nname = \"ext\"\n";
    assert_eq!(cdylib_name(l, Platform::MacOs).unwrap(), "libext.dylib");
    let n = "[package]\nname = \"pkg\"\n[lib]\nname = 5\n";
    assert_eq!(cdylib_name(n, Platform::Windows).unwrap(), "pkg.dll");
    assert!(matches!(cdylib_name("[package]\nversion = \"1\"\n", Platform::Unix), Err(ManifestError::NoLibraryName)));
    match cdylib_name("[package\n", Platform::Unix) {
        Err(ManifestError::Unparsable(m)) => {
            let e = toml::from_str::<toml::Value>("[package\n").unwrap_err();
            assert_eq!(m, format!("{:?}", e));
        }
        _ => panic!("expected a parse error"),
    }
}

#[test]
fn extension_file_names() {
    let e = RubyExt { extension: Extension { name: "my_ext".to_string() } };
    assert_eq!(extension_name(&e, Platform::Unix), "my_ext.so");
    assert_eq!(extension_name(&e, Platform::MacOs), "my_ext.bundle");
    assert_eq!(extension_name(&e, Platform::Windows), "my_ext.so");
}

#[test]
fn steps_for_a_library() {
    let o = Options::new(args(&["--lib", "ext"])).unwrap();
    let s = new_project_steps(&o);
    assert_eq!(s.len(), 8);
    match &s[1] {
        NewStep::InsertTomlLine { path, table, line } => {
            assert_eq!(parts(path), jp("ext", &["Cargo.toml"]));
            assert_eq!(table, "[package]");
            assert_eq!(line, "build = \"build.rs\"");
        }
        _ => panic!("expected the build line"),
    }
    match &s[3] {
        NewStep::Create { path, template } => {
            assert_eq!(parts(path), jp("ext", &["src", "lib.rs"]));
            assert_eq!(*template, Template::LibSource);
        }
        _ => panic!("expected lib.rs"),
    }
    match &s[7] {
        NewStep::Create { path, template } => {
            assert_eq!(parts(path), jp("ext", &["build.rs"]));
            assert_eq!(*template, Template::BuildScript);
        }
        _ => panic!("expected build.rs"),
    }
}

#[test]
fn steps_for_a_program() {
    let o = Options::new(args(&["prog"])).unwrap();
    let s = new_project_steps(&o);
    assert_eq!(s.len(), 3);
    match &s[0] {
        NewStep::Say(m) => assert_eq!(m, "  Fix Cargo.toml and src/main.rs"),
        _ => panic!("expected a message"),
    }
    match &s[2] {
        NewStep::Create { path, template } => {
            assert_eq!(parts(path), jp("prog", &["src", "main.rs"]));
            assert_eq!(*template, Template::BinSource);
        }
        _ => panic!("expected main.rs"),
    }
}

#[test]
fn readme_build_copies_to_extension_name() {
    let p = build_copy_paths(".", &[], "libmy_ext_name.so", "my_ext_name.so");
    assert_eq!(parts(&p.from), jp(".", &["target/debug", "libmy_ext_name.so"]));
    assert_eq!(parts(&p.to), jp(".", &["target/debug", "my_ext_name.so"]));
}

#[test]
fn readme_new_program_echo() {
    assert_eq!(
        cargo_new_command_line(&args(&["my_prog_name"])),
        "  Run comamnd: cargo new my_prog_name"
    );
}

#[test]
fn readme_build_echo() {
    assert_eq!(cargo_command_line("build", &[]), "  Run comamnd: cargo build");
}
