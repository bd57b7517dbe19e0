//! Command-line options of `cargo rbext new`.

use vstd::prelude::*;
use crate::paths::{basename, basename_of, law_basename_idempotent};
use crate::text::{opt_string_view, str_eq, starts_with_char, strings_view};

verus! {

/// Whether an option of `cargo new` stands alone or takes the next
/// argument as its value.
#[derive(Clone, Copy, Debug, PartialEq, Eq, Structural)]
pub enum Opt {
    NoArg,
    OneArg,
}

/// The options that `cargo rbext new` accepts, and whether each takes a value.
pub open spec fn opt_of(arg: Seq<char>) -> Option<Opt> {
    if arg == "-q"@ || arg == "--quiet"@ || arg == "--bin"@ || arg == "--lib"@ || arg == "-v"@
        || arg == "--verbose"@ || arg == "--frozen"@ || arg == "--locked"@ || arg
        == "--offline"@ {
        Some(Opt::NoArg)
    } else if arg == "--registry"@ || arg == "--vcs"@ || arg == "--edition"@ || arg == "--name"@
        || arg == "--color"@ || arg == "-Z"@ || arg == "-h"@ || arg == "--help"@ {
        Some(Opt::OneArg)
    } else {
        None
    }
}

/// Looks `arg` up among the accepted options.
pub fn lookup_opt(arg: &str) -> (r: Option<Opt>)
    ensures
        r == opt_of(arg@),
{
    if str_eq(arg, "-q") || str_eq(arg, "--quiet") || str_eq(arg, "--bin") || str_eq(arg, "--lib")
        || str_eq(arg, "-v") || str_eq(arg, "--verbose") || str_eq(arg, "--frozen") || str_eq(
        arg,
        "--locked",
    ) || str_eq(arg, "--offline") {
        Some(Opt::NoArg)
    } else if str_eq(arg, "--registry") || str_eq(arg, "--vcs") || str_eq(arg, "--edition")
        || str_eq(arg, "--name") || str_eq(arg, "--color") || str_eq(arg, "-Z") || str_eq(arg, "-h")
        || str_eq(arg, "--help") {
        Some(Opt::OneArg)
    } else {
        None
    }
}

/// What the arguments read so far have set.
pub struct ParsedArgs {
    pub path: Option<Seq<char>>,
    pub name: Option<Seq<char>>,
    pub lib: bool,
    pub help: bool,
    pub cargo_args: Seq<Seq<char>>,
}

/// Nothing read yet.
pub open spec fn nothing_parsed() -> ParsedArgs {
    ParsedArgs { path: None, name: None, lib: false, help: false, cargo_args: Seq::empty() }
}

/// The effect of the known option `arg`, with `value` when it takes one:
/// `--lib` and `-h`/`--help` set their flags, `--name` records the name and is
/// kept back from `cargo new`, every other option is handed on with its value.
pub open spec fn with_option(st: ParsedArgs, arg: Seq<char>, value: Option<Seq<char>>) -> ParsedArgs {
    ParsedArgs {
        path: st.path,
        name: if arg == "--name"@ {
            value
        } else {
            st.name
        },
        lib: st.lib || arg == "--lib"@,
        help: st.help || arg == "-h"@ || arg == "--help"@,
        cargo_args: if arg == "--name"@ {
            st.cargo_args
        } else {
            match value {
                Some(v) => st.cargo_args.push(arg).push(v),
                None => st.cargo_args.push(arg),
            }
        },
    }
}

/// The effect of the positional argument `arg`: it is the package path.
pub open spec fn with_path(st: ParsedArgs, arg: Seq<char>) -> ParsedArgs {
    ParsedArgs {
        path: Some(arg),
        name: st.name,
        lib: st.lib,
        help: st.help,
        cargo_args: st.cargo_args.push(arg),
    }
}

/// Reads `args` from the front after `st`: `None` when an argument that starts
/// with `-` is no known option, when an option that takes a value comes last,
/// or when a second positional argument comes.
pub open spec fn scan_args(args: Seq<Seq<char>>, st: ParsedArgs) -> Option<ParsedArgs>
    decreases args.len(),
{
    if args.len() == 0 {
        Some(st)
    } else if args[0].len() > 0 && args[0][0] == '-' {
        match opt_of(args[0]) {
            None => None,
            Some(Opt::NoArg) => scan_args(args.drop_first(), with_option(st, args[0], None)),
            Some(Opt::OneArg) => if args.len() < 2 {
                None
            } else {
                scan_args(args.skip(2), with_option(st, args[0], Some(args[1])))
            },
        }
    } else if st.path is Some {
        None
    } else {
        scan_args(args.drop_first(), with_path(st, args[0]))
    }
}

/// The options that `args` give, when they name a package path: a `--name`
/// is handed on to `cargo new` at the end, as its base name for a library.
pub open spec fn parsed_options(args: Seq<Seq<char>>) -> Option<ParsedArgs> {
    match scan_args(args, nothing_parsed()) {
        None => None,
        Some(st) => if st.path is None {
            None
        } else {
            Some(
                ParsedArgs {
                    path: st.path,
                    name: st.name,
                    lib: st.lib,
                    help: st.help,
                    cargo_args: match st.name {
                        Some(n) => st.cargo_args.push("--name"@).push(
                            if st.lib {
                                basename_of(n)
                            } else {
                                n
                            },
                        ),
                        None => st.cargo_args,
                    },
                },
            )
        },
    }
}

/// The options of `cargo rbext new`.
pub struct Options {
    pub path: String,
    pub name: Option<String>,
    pub lib: bool,
    pub help: bool,
    pub cargo_args: Vec<String>,
}

impl View for Options {
    type V = ParsedArgs;

    open spec fn view(&self) -> ParsedArgs {
        ParsedArgs {
            path: Some(self.path@),
            name: opt_string_view(self.name),
            lib: self.lib,
            help: self.help,
            cargo_args: strings_view(self.cargo_args@),
        }
    }
}

impl Options {
    /// Reads the arguments that follow `new`; `None` where `parsed_options` has none.
    pub fn new(args: Vec<String>) -> (r: Option<Options>)
        ensures
            match r {
                Some(o) => parsed_options(strings_view(args@)) == Some(o@),
                None => parsed_options(strings_view(args@)) is None,
            },
    {
        let ghost all = strings_view(args@);
        let mut path: Option<String> = None;
        let mut name: Option<String> = None;
        let mut lib = false;
        let mut help = false;
        let mut cargo_args: Vec<String> = Vec::new();
        let mut i: usize = 0;
        assert(all.skip(0) =~= all);
        assert(strings_view(cargo_args@) =~= Seq::<Seq<char>>::empty());
        while i < args.len()
            invariant
                i <= args.len(),
                all == strings_view(args@),
                scan_args(all, nothing_parsed()) == scan_args(
                    all.skip(i as int),
                    ParsedArgs {
                        path: opt_string_view(path),
                        name: opt_string_view(name),
                        lib: lib,
                        help: help,
                        cargo_args: strings_view(cargo_args@),
                    },
                ),
            decreases args.len() - i,
        {
            let ghost st = ParsedArgs {
                path: opt_string_view(path),
                name: opt_string_view(name),
                lib: lib,
                help: help,
                cargo_args: strings_view(cargo_args@),
            };
            let ghost rest = all.skip(i as int);
            assert(rest[0] == args@[i as int]@);
            let arg = args[i].clone();
            if starts_with_char(arg.as_str(), '-') {
                match lookup_opt(arg.as_str()) {
                    None => {
                        return None;
                    },
                    Some(opt) => {
                        let value: Option<String> = match opt {
                            Opt::OneArg => {
                                if i + 1 >= args.len() {
                                    return None;
                                }
                                assert(rest[1] == args@[i + 1]@);
                                Some(args[i + 1].clone())
                            },
                            Opt::NoArg => None,
                        };
                        let is_name = str_eq(arg.as_str(), "--name");
                        if str_eq(arg.as_str(), "--lib") {
                            lib = true;
                        }
                        if str_eq(arg.as_str(), "-h") || str_eq(arg.as_str(), "--help") {
                            help = true;
                        }
                        if is_name {
                            name = value;
                        } else {
                            let ghost before = cargo_args@;
                            cargo_args.push(arg);
                            match value {
                                Some(v) => {
                                    cargo_args.push(v);
                                },
                                None => {},
                            }
                            assert(strings_view(cargo_args@) =~= match opt_string_view(value) {
                                Some(v) => strings_view(before).push(rest[0]).push(v),
                                None => strings_view(before).push(rest[0]),
                            });
                        }
                        match opt {
                            Opt::OneArg => {
                                assert(rest.skip(2) =~= all.skip(i + 2));
                                i = i + 2;
                            },
                            Opt::NoArg => {
                                assert(rest.drop_first() =~= all.skip(i + 1));
                                i = i + 1;
                            },
                        }
                    },
                }
            } else {
                if path.is_some() {
                    return None;
                }
                let ghost before = cargo_args@;
                path = Some(arg.clone());
                cargo_args.push(arg);
                assert(strings_view(cargo_args@) =~= strings_view(before).push(rest[0]));
                assert(rest.drop_first() =~= all.skip(i + 1));
                i = i + 1;
            }
        }
        assert(all.skip(i as int) =~= Seq::<Seq<char>>::empty());
        match path {
            None => None,
            Some(p) => {
                let ghost before = cargo_args@;
                match &name {
                    Some(n) => {
                        cargo_args.push(String::from_str("--name"));
                        if lib {
                            cargo_args.push(String::from_str(basename(n.as_str())));
                        } else {
                            cargo_args.push(n.clone());
                        }
                        assert(strings_view(cargo_args@) =~= strings_view(before).push(
                            "--name"@,
                        ).push(
                            if lib {
                                basename_of(n@)
                            } else {
                                n@
                            },
                        ));
                    },
                    None => {},
                }
                Some(Options { path: p, name: name, lib: lib, help: help, cargo_args: cargo_args })
            },
        }
    }

    /// The package path given on the command line.
    pub fn path(&self) -> (r: &str)
        ensures
            r@ == self.path@,
    {
        self.path.as_str()
    }

    /// The base name of the package: of `--name` when given, else of the path.
    pub open spec fn name_of(&self) -> Seq<char> {
        basename_of(
            match self.name {
                Some(n) => n@,
                None => self.path@,
            },
        )
    }

    /// The base name of the package: of `--name` when given, else of the path.
    pub fn name(&self) -> (r: &str)
        ensures
            r@ == self.name_of(),
    {
        match &self.name {
            Some(n) => basename(n.as_str()),
            None => basename(self.path.as_str()),
        }
    }

    /// The full extension name: `--name` as given, else the base name of the path.
    pub open spec fn ext_name_of(&self) -> Seq<char> {
        match self.name {
            Some(n) => n@,
            None => basename_of(self.path@),
        }
    }

    /// The full extension name: `--name` as given, else the base name of the path.
    pub fn ext_name(&self) -> (r: &str)
        ensures
            r@ == self.ext_name_of(),
    {
        match &self.name {
            Some(n) => n.as_str(),
            None => basename(self.path.as_str()),
        }
    }

    /// The arguments to hand on to `cargo new`.
    pub fn cargo_args(&self) -> (r: &[String])
        ensures
            r@ == self.cargo_args@,
    {
        self.cargo_args.as_slice()
    }

    /// Whether `--lib` was given.
    pub fn is_lib(&self) -> (r: bool)
        ensures
            r == self.lib,
    {
        self.lib
    }
}

/// The package name is the base name of the full extension name.
pub proof fn law_name_is_base_of_ext_name(o: Options)
    ensures
        o.name_of() == basename_of(o.ext_name_of()),
{
    law_basename_idempotent(o.path@);
}

/// The arguments read so far hand the package path on to `cargo new`.
pub open spec fn path_handed_on(st: ParsedArgs) -> bool {
    st.path matches Some(p) ==> st.cargo_args.contains(p)
}

proof fn lemma_scan_hands_path_on(args: Seq<Seq<char>>, st: ParsedArgs)
    requires
        path_handed_on(st),
    ensures
        scan_args(args, st) matches Some(r) ==> path_handed_on(r),
    decreases args.len(),
{
    if args.len() == 0 {
    } else if args[0].len() > 0 && args[0][0] == '-' {
        match opt_of(args[0]) {
            None => {},
            Some(Opt::NoArg) => {
                let next = with_option(st, args[0], None);
                if let Some(p) = st.path {
                    let k = choose|k: int| 0 <= k < st.cargo_args.len() && st.cargo_args[k] == p;
                    assert(next.cargo_args[k] == p);
                }
                lemma_scan_hands_path_on(args.drop_first(), next);
            },
            Some(Opt::OneArg) => {
                if args.len() >= 2 {
                    let next = with_option(st, args[0], Some(args[1]));
                    if let Some(p) = st.path {
                        let k = choose|k: int| 0 <= k < st.cargo_args.len() && st.cargo_args[k] == p;
                        assert(next.cargo_args[k] == p);
                    }
                    lemma_scan_hands_path_on(args.skip(2), next);
                }
            },
        }
    } else if st.path is None {
        let next = with_path(st, args[0]);
        assert(next.cargo_args[next.cargo_args.len() - 1] == args[0]);
        lemma_scan_hands_path_on(args.drop_first(), next);
    }
}

/// Whatever options come with it, the package path is handed on to `cargo new`.
pub proof fn law_path_is_handed_on(args: Seq<Seq<char>>)
    ensures
        parsed_options(args) matches Some(p) ==> p.path is Some && p.cargo_args.contains(
            p.path->0,
        ),
{
    assert(path_handed_on(nothing_parsed()));
    lemma_scan_hands_path_on(args, nothing_parsed());
    if let Some(st) = scan_args(args, nothing_parsed()) {
        if let Some(p) = st.path {
            let k = choose|k: int| 0 <= k < st.cargo_args.len() && st.cargo_args[k] == p;
            let r = parsed_options(args)->0;
            assert(r.cargo_args[k] == p);
        }
    }
}

proof fn lemma_scan_prefix(a: Seq<Seq<char>>, b: Seq<Seq<char>>, st: ParsedArgs)
    ensures
        scan_args(a, st) matches Some(m) ==> scan_args(a + b, st) == scan_args(b, m),
    decreases a.len(),
{
    if a.len() == 0 {
        assert(a + b =~= b);
    } else {
        let ab = a + b;
        assert(ab[0] == a[0]);
        if a[0].len() > 0 && a[0][0] == '-' {
            match opt_of(a[0]) {
                None => {},
                Some(Opt::NoArg) => {
                    assert(ab.drop_first() =~= a.drop_first() + b);
                    lemma_scan_prefix(a.drop_first(), b, with_option(st, a[0], None));
                },
                Some(Opt::OneArg) => {
                    if a.len() >= 2 {
                        assert(ab[1] == a[1]);
                        assert(ab.skip(2) =~= a.skip(2) + b);
                        lemma_scan_prefix(a.skip(2), b, with_option(st, a[0], Some(a[1])));
                    }
                },
            }
        } else if st.path is None {
            assert(ab.drop_first() =~= a.drop_first() + b);
            lemma_scan_prefix(a.drop_first(), b, with_path(st, a[0]));
        }
    }
}

proof fn lemma_scan_without_path(rest: Seq<Seq<char>>, s1: ParsedArgs, s2: ParsedArgs)
    requires
        s1.path is Some,
        s2.path is None,
        s1.lib == s2.lib,
        s1.help == s2.help,
        s1.name == s2.name,
    ensures
        scan_args(rest, s1) matches Some(r1) ==> (scan_args(rest, s2) matches Some(r2) && r2.path is None
            && r1.lib == r2.lib && r1.help == r2.help && r1.name == r2.name),
    decreases rest.len(),
{
    if rest.len() > 0 && rest[0].len() > 0 && rest[0][0] == '-' {
        match opt_of(rest[0]) {
            None => {},
            Some(Opt::NoArg) => {
                lemma_scan_without_path(
                    rest.drop_first(),
                    with_option(s1, rest[0], None),
                    with_option(s2, rest[0], None),
                );
            },
            Some(Opt::OneArg) => {
                if rest.len() >= 2 {
                    lemma_scan_without_path(
                        rest.skip(2),
                        with_option(s1, rest[0], Some(rest[1])),
                        with_option(s2, rest[0], Some(rest[1])),
                    );
                }
            },
        }
    }
}

/// Where the package path stands among the options does not matter: with
/// the path first or last, the same options give the same `--lib`, help
/// flag and `--name`.
pub proof fn law_options_wherever_the_path_stands(path: Seq<char>, rest: Seq<Seq<char>>)
    requires
        !(path.len() > 0 && path[0] == '-'),
    ensures
        parsed_options(seq![path] + rest) matches Some(p) ==> (parsed_options(rest + seq![path]) matches Some(q)
            && q.lib == p.lib && q.help == p.help && q.name == p.name),
{
    let first = seq![path] + rest;
    assert(first[0] == path);
    assert(first.drop_first() =~= rest);
    let s1 = with_path(nothing_parsed(), path);
    lemma_scan_without_path(rest, s1, nothing_parsed());
    if let Some(r1) = scan_args(rest, s1) {
        let r2 = scan_args(rest, nothing_parsed())->0;
        lemma_scan_prefix(rest, seq![path], nothing_parsed());
        let last = seq![path];
        assert(last[0] == path);
        assert(last.drop_first() =~= Seq::<Seq<char>>::empty());
        assert(r2.path is None);
        assert(scan_args(Seq::<Seq<char>>::empty(), with_path(r2, path)) == Some(with_path(r2, path)));
        assert(scan_args(last, r2) == scan_args(last.drop_first(), with_path(r2, path)));
        assert(scan_args(last, r2) == Some(with_path(r2, path)));
    }
}

proof fn lemma_scan_keeps_lib(args: Seq<Seq<char>>, st: ParsedArgs)
    requires
        st.lib,
    ensures
        scan_args(args, st) matches Some(r) ==> r.lib,
    decreases args.len(),
{
    if args.len() > 0 {
        if args[0].len() > 0 && args[0][0] == '-' {
            match opt_of(args[0]) {
                None => {},
                Some(Opt::NoArg) => lemma_scan_keeps_lib(args.drop_first(), with_option(st, args[0], None)),
                Some(Opt::OneArg) => {
                    if args.len() >= 2 {
                        lemma_scan_keeps_lib(args.skip(2), with_option(st, args[0], Some(args[1])));
                    }
                },
            }
        } else if st.path is None {
            lemma_scan_keeps_lib(args.drop_first(), with_path(st, args[0]));
        }
    }
}

proof fn lemma_scan_without_lib_flag(args: Seq<Seq<char>>, st: ParsedArgs)
    requires
        !st.lib,
        !args.contains("--lib"@),
    ensures
        scan_args(args, st) matches Some(r) ==> !r.lib,
    decreases args.len(),
{
    if args.len() > 0 {
        assert(args[0] != "--lib"@);
        if args[0].len() > 0 && args[0][0] == '-' {
            match opt_of(args[0]) {
                None => {},
                Some(Opt::NoArg) => {
                    let t = args.drop_first();
                    assert forall|k: int| 0 <= k < t.len() implies t[k] != "--lib"@ by {
                        assert(t[k] == args[k + 1]);
                    }
                    lemma_scan_without_lib_flag(t, with_option(st, args[0], None));
                },
                Some(Opt::OneArg) => {
                    if args.len() >= 2 {
                        let t = args.skip(2);
                        assert forall|k: int| 0 <= k < t.len() implies t[k] != "--lib"@ by {
                            assert(t[k] == args[k + 2]);
                        }
                        lemma_scan_without_lib_flag(t, with_option(st, args[0], Some(args[1])));
                    }
                },
            }
        } else if st.path is None {
            let t = args.drop_first();
            assert forall|k: int| 0 <= k < t.len() implies t[k] != "--lib"@ by {
                assert(t[k] == args[k + 1]);
            }
            lemma_scan_without_lib_flag(t, with_path(st, args[0]));
        }
    }
}

/// `--lib` given first makes a library; without any `--lib` argument the
/// package is a program.
pub proof fn law_lib_flag(rest: Seq<Seq<char>>, args: Seq<Seq<char>>)
    ensures
        parsed_options(seq!["--lib"@] + rest) matches Some(p) ==> p.lib,
        !args.contains("--lib"@) ==> (parsed_options(args) matches Some(p) ==> !p.lib),
{
    reveal_strlit("--lib");
    let first = seq!["--lib"@] + rest;
    assert(first[0] == "--lib"@);
    assert(first.drop_first() =~= rest);
    assert(opt_of("--lib"@) == Some(Opt::NoArg));
    lemma_scan_keeps_lib(rest, with_option(nothing_parsed(), "--lib"@, None));
    if !args.contains("--lib"@) {
        lemma_scan_without_lib_flag(args, nothing_parsed());
    }
}

proof fn lemma_scan_without_help_flag(args: Seq<Seq<char>>, st: ParsedArgs)
    requires
        !st.help,
        !args.contains("-h"@),
        !args.contains("--help"@),
    ensures
        scan_args(args, st) matches Some(r) ==> !r.help,
    decreases args.len(),
{
    if args.len() > 0 {
        assert(args[0] != "-h"@ && args[0] != "--help"@);
        if args[0].len() > 0 && args[0][0] == '-' {
            match opt_of(args[0]) {
                None => {},
                Some(Opt::NoArg) => {
                    let t = args.drop_first();
                    assert forall|k: int| 0 <= k < t.len() implies t[k] != "-h"@ && t[k] != "--help"@ by {
                        assert(t[k] == args[k + 1]);
                    }
                    lemma_scan_without_help_flag(t, with_option(st, args[0], None));
                },
                Some(Opt::OneArg) => {
                    if args.len() >= 2 {
                        let t = args.skip(2);
                        assert forall|k: int| 0 <= k < t.len() implies t[k] != "-h"@ && t[k] != "--help"@ by {
                            assert(t[k] == args[k + 2]);
                        }
                        lemma_scan_without_help_flag(t, with_option(st, args[0], Some(args[1])));
                    }
                },
            }
        } else if st.path is None {
            let t = args.drop_first();
            assert forall|k: int| 0 <= k < t.len() implies t[k] != "-h"@ && t[k] != "--help"@ by {
                assert(t[k] == args[k + 1]);
            }
            lemma_scan_without_help_flag(t, with_path(st, args[0]));
        }
    }
}

/// Without a `-h` or `--help` argument no help is asked for.
pub proof fn law_help_flag(args: Seq<Seq<char>>)
    ensures
        !args.contains("-h"@) && !args.contains("--help"@) ==> (parsed_options(args) matches Some(p)
            ==> !p.help),
{
    if !args.contains("-h"@) && !args.contains("--help"@) {
        lemma_scan_without_help_flag(args, nothing_parsed());
    }
}

/// A `--name` is handed on to `cargo new` last, as its base name for a library.
pub proof fn law_name_is_handed_on_last(args: Seq<Seq<char>>)
    ensures
        parsed_options(args) matches Some(p) ==> (p.name matches Some(n) ==> {
            let k: int = p.cargo_args.len() as int;
            &&& k >= 2
            &&& p.cargo_args[k - 2] == "--name"@
            &&& p.cargo_args[k - 1] == if p.lib {
                basename_of(n)
            } else {
                n
            }
        }),
{
}

} // verus!
