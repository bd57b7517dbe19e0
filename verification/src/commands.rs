//! The decisions of the `new`, `build` and `install` subcommands; running
//! Cargo, reading files and copying them is left to the caller.

use vstd::prelude::*;
use vstd::string::StringExecFns;
use crate::options::Options;
use crate::paths::{basename, basename_of, joined_path, JoinedPath};
use crate::text::{has_char, str_eq, strings_view};

verus! {

/// `Some` of the text of `s` when it holds one.
pub fn to_str_opt(s: &Option<String>) -> (r: Option<&str>)
    ensures
        match s {
            Some(x) => r matches Some(y) && y@ == x@,
            None => r is None,
        },
{
    match s {
        Some(x) => Some(x.as_str()),
        None => None,
    }
}

/// What the command line asks for.
pub enum Invocation {
    New(Vec<String>),
    Build(Vec<String>),
    Install(Vec<String>),
    /// A subcommand that is not known, by its name.
    Unknown(String),
    /// No subcommand: the usage is shown.
    Usage,
}

/// Where the subcommand stands among the arguments that follow the program
/// name: after `rbext` when Cargo hands that on, else first.
pub open spec fn subcommand_index(args: Seq<Seq<char>>) -> int {
    if args.len() > 0 && args[0] == "rbext"@ {
        1
    } else {
        0
    }
}

/// Reads the subcommand from the arguments that follow the program name; the
/// arguments after the subcommand are handed to it.
pub fn invocation(args: &Vec<String>) -> (r: Invocation)
    ensures
        ({
            let a = strings_view(args@);
            let k: int = subcommand_index(a);
            if k >= a.len() {
                r is Usage
            } else if a[k] == "new"@ {
                r matches Invocation::New(rest) && strings_view(rest@) == a.skip(k + 1)
            } else if a[k] == "build"@ {
                r matches Invocation::Build(rest) && strings_view(rest@) == a.skip(k + 1)
            } else if a[k] == "install"@ {
                r matches Invocation::Install(rest) && strings_view(rest@) == a.skip(k + 1)
            } else {
                r matches Invocation::Unknown(s) && s@ == a[k]
            }
        }),
{
    let ghost a = strings_view(args@);
    let mut k: usize = 0;
    if args.len() > 0 && str_eq(args[0].as_str(), "rbext") {
        k = 1;
    }
    assert(k == subcommand_index(a));
    if k >= args.len() {
        return Invocation::Usage;
    }
    let mut rest: Vec<String> = Vec::new();
    let mut i: usize = k + 1;
    assert(strings_view(rest@) =~= a.subrange(k + 1, i as int));
    while i < args.len()
        invariant
            k < args.len(),
            k + 1 <= i <= args.len(),
            a == strings_view(args@),
            strings_view(rest@) == a.subrange(k + 1, i as int),
        decreases args.len() - i,
    {
        let ghost before = rest@;
        rest.push(args[i].clone());
        assert(strings_view(rest@) =~= strings_view(before).push(a[i as int]));
        i = i + 1;
        assert(strings_view(rest@) =~= a.subrange(k + 1, i as int));
    }
    assert(a.subrange(k + 1, args.len() as int) =~= a.skip(k + 1));
    let first = Some(args[k].clone());
    match to_str_opt(&first) {
        Some(s) => {
            if str_eq(s, "new") {
                Invocation::New(rest)
            } else if str_eq(s, "build") {
                Invocation::Build(rest)
            } else if str_eq(s, "install") {
                Invocation::Install(rest)
            } else {
                Invocation::Unknown(String::from_str(s))
            }
        },
        None => Invocation::Usage,
    }
}

/// How an argument is echoed: after a space, and in double quotes when it
/// holds a space.
pub open spec fn echoed_arg(a: Seq<char>) -> Seq<char> {
    if a.contains(' ') {
        " \""@ + a + "\""@
    } else {
        " "@ + a
    }
}

/// The arguments echoed one after the other.
pub open spec fn echoed_args(args: Seq<Seq<char>>) -> Seq<char>
    decreases args.len(),
{
    if args.len() == 0 {
        Seq::empty()
    } else {
        echoed_args(args.drop_last()) + echoed_arg(args.last())
    }
}

/// Appends the echo of `args` to `line`.
fn echo_args(line: &mut String, args: &[String])
    ensures
        final(line)@ == old(line)@ + echoed_args(strings_view(args@)),
{
    let ghost start = line@;
    let mut i: usize = 0;
    assert(strings_view(args@).take(0) =~= Seq::<Seq<char>>::empty());
    assert(start + Seq::<char>::empty() =~= start);
    while i < args.len()
        invariant
            i <= args.len(),
            line@ == start + echoed_args(strings_view(args@).take(i as int)),
        decreases args.len() - i,
    {
        let arg = args[i].as_str();
        if has_char(arg, ' ') {
            line.append(" \"");
            line.append(arg);
            line.append("\"");
        } else {
            line.append(" ");
            line.append(arg);
        }
        let ghost t = strings_view(args@).take(i + 1);
        assert(t.drop_last() =~= strings_view(args@).take(i as int));
        assert(t.last() == arg@);
        i = i + 1;
    }
    assert(strings_view(args@).take(args.len() as int) =~= strings_view(args@));
}

/// The line shown before `cargo <subcommand>` runs with `args`.
pub fn cargo_command_line(subcommand: &str, args: &[String]) -> (r: String)
    ensures
        r@ == "  Run comamnd: cargo "@ + subcommand@ + echoed_args(strings_view(args@)),
{
    let mut line = String::from_str("  Run comamnd: cargo ");
    line.append(subcommand);
    echo_args(&mut line, args);
    line
}

/// The line shown before `cargo new` runs with `args`.
pub fn cargo_new_command_line(args: &[String]) -> (r: String)
    ensures
        r@ == "  Run comamnd: cargo new"@ + echoed_args(strings_view(args@)),
{
    let mut line = String::from_str("  Run comamnd: cargo new");
    echo_args(&mut line, args);
    line
}

/// Whether `a` is one of `args`.
pub fn contains_arg(args: &[String], a: &str) -> (r: bool)
    ensures
        r == strings_view(args@).contains(a@),
{
    let mut i: usize = 0;
    while i < args.len()
        invariant
            i <= args.len(),
            forall|k: int| 0 <= k < i ==> strings_view(args@)[k] != a@,
        decreases args.len() - i,
    {
        if str_eq(args[i].as_str(), a) {
            assert(strings_view(args@)[i as int] == a@);
            return true;
        }
        i = i + 1;
    }
    false
}

/// Whether the arguments ask for the usage text.
pub fn is_help_request(args: &[String]) -> (r: bool)
    ensures
        r == (strings_view(args@).contains("-h"@) || strings_view(args@).contains("--help"@)),
{
    contains_arg(args, "-h") || contains_arg(args, "--help")
}

/// Where Cargo puts what it builds with `args`.
pub open spec fn build_output_dir_of(args: Seq<Seq<char>>) -> Seq<char> {
    if args.contains("--release"@) {
        "target/release"@
    } else {
        "target/debug"@
    }
}

/// Where Cargo puts what it builds with `args`, under the package root.
pub fn build_output_dir(args: &[String]) -> (r: &'static str)
    ensures
        r@ == build_output_dir_of(strings_view(args@)),
{
    if contains_arg(args, "--release") {
        "target/release"
    } else {
        "target/debug"
    }
}

/// A file to copy, and where to.
pub struct CopyPaths {
    pub from: JoinedPath,
    pub to: JoinedPath,
}

/// After `cargo rbext build`: the built library is copied, in the output
/// directory, to the extension's file name.
pub fn build_copy_paths(root_dir: &str, args: &[String], cdylib_name: &str, extension_name: &str) -> (r: CopyPaths)
    ensures
        r.from@ == (root_dir@, seq![build_output_dir_of(strings_view(args@)), cdylib_name@]),
        r.to@ == (root_dir@, seq![build_output_dir_of(strings_view(args@)), basename_of(extension_name@)]),
{
    let out_dir = build_output_dir(args);
    let from = joined_path(root_dir, &[out_dir, cdylib_name]);
    let to = joined_path(root_dir, &[out_dir, basename(extension_name)]);
    assert(from@.1 =~= seq![build_output_dir_of(strings_view(args@)), cdylib_name@]);
    assert(to@.1 =~= seq![build_output_dir_of(strings_view(args@)), basename_of(extension_name@)]);
    CopyPaths { from, to }
}

/// The arguments that `cargo rbext install` builds with: those given, and `--release`.
pub fn install_cargo_args(args: Vec<String>) -> (r: Vec<String>)
    ensures
        strings_view(r@) == strings_view(args@).push("--release"@),
{
    let mut r = args;
    let ghost before = r@;
    r.push(String::from_str("--release"));
    assert(strings_view(r@) =~= strings_view(before).push("--release"@));
    r
}

/// `cargo rbext build` copies from `target/release` exactly when `--release`
/// is among its arguments, wherever it stands, and from `target/debug` otherwise.
pub proof fn law_release_anywhere(args: Seq<Seq<char>>)
    ensures
        build_output_dir_of(args) == "target/release"@ <==> args.contains("--release"@),
        build_output_dir_of(args) == "target/debug"@ <==> !args.contains("--release"@),
{
    reveal_strlit("target/release");
    reveal_strlit("target/debug");
    assert("target/release"@[7] != "target/debug"@[7]);
}

/// `cargo rbext install` builds where it copies from: its arguments always
/// hold `--release`, so Cargo puts the library under `target/release`.
pub proof fn law_install_builds_release(args: Seq<Seq<char>>)
    ensures
        build_output_dir_of(args.push("--release"@)) == "target/release"@,
{
    assert(args.push("--release"@)[args.len() as int] == "--release"@);
}

/// After `cargo rbext install`: the release build of the library is copied
/// into Ruby's extension directory under the extension's file name.
pub fn install_copy_paths(root_dir: &str, archdir: &str, cdylib_name: &str, extension_name: &str) -> (r: CopyPaths)
    ensures
        r.from@ == (root_dir@, seq!["target"@, "release"@, cdylib_name@]),
        r.to@ == (archdir@, seq![extension_name@]),
{
    let from = joined_path(root_dir, &["target", "release", cdylib_name]);
    let to = joined_path(archdir, &[extension_name]);
    assert(from@.1 =~= seq!["target"@, "release"@, cdylib_name@]);
    assert(to@.1 =~= seq![extension_name@]);
    CopyPaths { from, to }
}

/// The `Cargo.toml` of the package whose root is `dir`.
pub fn manifest_path(dir: &str) -> (r: JoinedPath)
    ensures
        r@ == (dir@, seq!["Cargo.toml"@]),
{
    let r = joined_path(dir, &["Cargo.toml"]);
    assert(r@.1 =~= seq!["Cargo.toml"@]);
    r
}

/// The `RubyExt.toml` of the package whose root is `dir`.
pub fn ruby_ext_manifest_path(dir: &str) -> (r: JoinedPath)
    ensures
        r@ == (dir@, seq!["RubyExt.toml"@]),
{
    let r = joined_path(dir, &["RubyExt.toml"]);
    assert(r@.1 =~= seq!["RubyExt.toml"@]);
    r
}

/// A step of the search for the package root, which starts at `.`.
pub enum RootSearch {
    /// The directory holds `Cargo.toml`: it is the root.
    Found,
    /// Join this part (`..`) onto the directory and look there next.
    Ascend(String),
    /// The directory does not exist: there is no package root.
    Missing,
}

/// One step of the search for the package root, given whether the directory
/// looked at exists and whether it holds a `Cargo.toml`: the root is the
/// first directory, going up by `..`, that holds one.
pub fn root_dir(dir_exists: bool, manifest_exists: bool) -> (r: RootSearch)
    ensures
        !dir_exists ==> r is Missing,
        dir_exists && manifest_exists ==> r is Found,
        dir_exists && !manifest_exists ==> (r matches RootSearch::Ascend(p) && p@ == ".."@),
{
    if !dir_exists {
        RootSearch::Missing
    } else if manifest_exists {
        RootSearch::Found
    } else {
        RootSearch::Ascend(String::from_str(".."))
    }
}

/// The template files that a new package gets.
#[derive(Clone, Copy, Debug, PartialEq, Eq, Structural)]
pub enum Template {
    /// Appended to the `Cargo.toml` of a library.
    LibCargoAppend,
    /// `src/lib.rs` of a library.
    LibSource,
    /// `RubyExt.toml` of a library.
    RubyExtToml,
    /// `Rakefile` of a library.
    Rakefile,
    /// `build.rs` of a library.
    BuildScript,
    /// Appended to the `Cargo.toml` of a program.
    BinCargoAppend,
    /// `src/main.rs` of a program.
    BinSource,
}

/// A step of setting up a package after `cargo new` made it.
pub enum NewStep {
    /// Show a line.
    Say(String),
    /// Add `line` to the table `table` of the TOML file at `path`.
    InsertTomlLine { path: JoinedPath, table: String, line: String },
    /// Append the template to the file at `path`.
    Append { path: JoinedPath, template: Template },
    /// Write the file at `path` from the template, placeholders filled.
    Create { path: JoinedPath, template: Template },
}

/// A step of setting up a package, with its texts as characters.
pub enum NewStepSpec {
    Say(Seq<char>),
    InsertTomlLine((Seq<char>, Seq<Seq<char>>), Seq<char>, Seq<char>),
    Append((Seq<char>, Seq<Seq<char>>), Template),
    Create((Seq<char>, Seq<Seq<char>>), Template),
}

impl View for NewStep {
    type V = NewStepSpec;

    open spec fn view(&self) -> NewStepSpec {
        match self {
            NewStep::Say(m) => NewStepSpec::Say(m@),
            NewStep::InsertTomlLine { path, table, line } => NewStepSpec::InsertTomlLine(
                path@,
                table@,
                line@,
            ),
            NewStep::Append { path, template } => NewStepSpec::Append(path@, *template),
            NewStep::Create { path, template } => NewStepSpec::Create(path@, *template),
        }
    }
}

/// The steps that set up the package at `dir`: a library gets a build
/// script entry in `[package]`, the rosy dependency, `src/lib.rs`,
/// `RubyExt.toml`, a `Rakefile` and `build.rs`; a program gets the
/// dependency and `src/main.rs`.
pub open spec fn new_project_steps_of(dir: Seq<char>, lib: bool) -> Seq<NewStepSpec> {
    if lib {
        seq![
            NewStepSpec::Say("  Fix Cargo.toml and src/lib.rs"@),
            NewStepSpec::InsertTomlLine((dir, seq!["Cargo.toml"@]), "[package]"@, "build = \"build.rs\""@),
            NewStepSpec::Append((dir, seq!["Cargo.toml"@]), Template::LibCargoAppend),
            NewStepSpec::Create((dir, seq!["src"@, "lib.rs"@]), Template::LibSource),
            NewStepSpec::Say("  Create RubyExt.toml, Rakefile and build.rs"@),
            NewStepSpec::Create((dir, seq!["RubyExt.toml"@]), Template::RubyExtToml),
            NewStepSpec::Create((dir, seq!["Rakefile"@]), Template::Rakefile),
            NewStepSpec::Create((dir, seq!["build.rs"@]), Template::BuildScript),
        ]
    } else {
        seq![
            NewStepSpec::Say("  Fix Cargo.toml and src/main.rs"@),
            NewStepSpec::Append((dir, seq!["Cargo.toml"@]), Template::BinCargoAppend),
            NewStepSpec::Create((dir, seq!["src"@, "main.rs"@]), Template::BinSource),
        ]
    }
}

/// Whether `t` is one of the templates of a Ruby extension library.
pub open spec fn is_library_template(t: Template) -> bool {
    t == Template::LibCargoAppend || t == Template::LibSource || t == Template::RubyExtToml
        || t == Template::Rakefile || t == Template::BuildScript
}

/// The template that a step writes from, if any.
pub open spec fn step_template(s: NewStepSpec) -> Option<Template> {
    match s {
        NewStepSpec::Append(_, t) => Some(t),
        NewStepSpec::Create(_, t) => Some(t),
        _ => None,
    }
}

/// A library is set up from library templates only, a program from program
/// templates only; a library's `Cargo.toml` gets the library's append and a
/// program's the program's.
pub proof fn law_templates_match_package_kind(dir: Seq<char>, lib: bool)
    ensures
        forall|i: int|
            0 <= i < new_project_steps_of(dir, lib).len() ==> (#[trigger] step_template(
                new_project_steps_of(dir, lib)[i],
            ) matches Some(t) ==> is_library_template(t) == lib),
        exists|i: int|
            0 <= i < new_project_steps_of(dir, lib).len() && #[trigger] new_project_steps_of(dir, lib)[i]
                == NewStepSpec::Append(
                (dir, seq!["Cargo.toml"@]),
                if lib {
                    Template::LibCargoAppend
                } else {
                    Template::BinCargoAppend
                },
            ),
{
    let steps = new_project_steps_of(dir, lib);
    if lib {
        assert(steps[2] == NewStepSpec::Append((dir, seq!["Cargo.toml"@]), Template::LibCargoAppend));
    } else {
        assert(steps[1] == NewStepSpec::Append((dir, seq!["Cargo.toml"@]), Template::BinCargoAppend));
    }
}

/// The path `dir` with the parts `a`, then `b`, joined onto it.
fn path_in(dir: &str, a: &str, b: Option<&str>) -> (r: JoinedPath)
    ensures
        r@ == (dir@, match b {
            Some(b) => seq![a@, b@],
            None => seq![a@],
        }),
{
    let r = match b {
        Some(b) => joined_path(dir, &[a, b]),
        None => joined_path(dir, &[a]),
    };
    assert(r@.1 =~= match b {
        Some(b) => seq![a@, b@],
        None => seq![a@],
    });
    r
}

/// The steps that set up the package that `cargo new` made for `opts`.
pub fn new_project_steps(opts: &Options) -> (r: Vec<NewStep>)
    ensures
        r@.map_values(|s: NewStep| s@) == new_project_steps_of(opts.path@, opts.lib),
{
    let dir = opts.path();
    let mut r: Vec<NewStep> = Vec::new();
    if opts.is_lib() {
        r.push(NewStep::Say(String::from_str("  Fix Cargo.toml and src/lib.rs")));
        r.push(
            NewStep::InsertTomlLine {
                path: path_in(dir, "Cargo.toml", None),
                table: String::from_str("[package]"),
                line: String::from_str("build = \"build.rs\""),
            },
        );
        r.push(NewStep::Append { path: path_in(dir, "Cargo.toml", None), template: Template::LibCargoAppend });
        r.push(NewStep::Create { path: path_in(dir, "src", Some("lib.rs")), template: Template::LibSource });
        r.push(NewStep::Say(String::from_str("  Create RubyExt.toml, Rakefile and build.rs")));
        r.push(NewStep::Create { path: path_in(dir, "RubyExt.toml", None), template: Template::RubyExtToml });
        r.push(NewStep::Create { path: path_in(dir, "Rakefile", None), template: Template::Rakefile });
        r.push(NewStep::Create { path: path_in(dir, "build.rs", None), template: Template::BuildScript });
    } else {
        r.push(NewStep::Say(String::from_str("  Fix Cargo.toml and src/main.rs")));
        r.push(NewStep::Append { path: path_in(dir, "Cargo.toml", None), template: Template::BinCargoAppend });
        r.push(NewStep::Create { path: path_in(dir, "src", Some("main.rs")), template: Template::BinSource });
    }
    assert(r@.map_values(|s: NewStep| s@) =~= new_project_steps_of(opts.path@, opts.lib));
    r
}

} // verus!
