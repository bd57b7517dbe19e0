use cargo_rbext::template::{fill_template, replace_all, template_values};
use cargo_rbext::toml_lines::insert_toml_line;
use cargo_rbext::options::Options;

#[test]
fn replace_all_matches_left_to_right() {
    assert_eq!(replace_all("aXbX", "X", "Y"), "aYbY");
    assert_eq!(replace_all("aaa", "aa", "b"), "ba");
    assert_eq!(replace_all("ab", "", "x"), "xaxbx");
    assert_eq!(replace_all("", "", "x"), "x");
    assert_eq!(replace_all("abc", "z", "y"), "abc");
    assert_eq!(replace_all("@N@-@N@", "@N@", "name"), "name-name");
}

#[test]
fn fill_template_in_order() {
    let kv = vec![
        ("@A@".to_string(), "@B@".to_string()),
        ("@B@".to_string(), "b".to_string()),
    ];
    assert_eq!(fill_template("x @A@ y @B@", &kv), "x b y b");
    assert_eq!(fill_template("plain", &[]), "plain");
}

#[test]
fn template_values_for_a_library() {
    let o = Options::new(vec!["--lib".to_string(), "dir/my_ext_name".to_string()]).unwrap();
    let kv = template_values(&o);
    assert_eq!(kv.len(), 3);
    assert_eq!(kv[0], ("@EXT_BASENAME@".to_string(), "my_ext_name".to_string()));
    assert_eq!(kv[1], ("@EXT_CLASSNAME@".to_string(), "MyExtName".to_string()));
    assert_eq!(kv[2], ("@EXT_FULLNAME@".to_string(), "my_ext_name".to_string()));
    let filled = fill_template(
        "module @EXT_CLASSNAME@ Init_@EXT_BASENAME@ @EXT_FULLNAME@",
        &kv,
    );
    assert_eq!(filled, "module MyExtName Init_my_ext_name my_ext_name");
}

#[test]
fn camel_case_of_odd_names() {
    let o = Options::new(vec!["--name".to_string(), "_wild__underscore_s_".to_string(), "p".to_string()]).unwrap();
    let kv = template_values(&o);
    assert_eq!(kv[1].1, "WildUnderscoreS");
}

#[test]
fn build_line_goes_before_blank_line() {
    let content = "[package]\nname = \"x\"\nversion = \"0.1.0\"\n\n[dependencies]\n";
    assert_eq!(
        insert_toml_line(content, "[package]", "build = \"build.rs\""),
        "[package]\nname = \"x\"\nversion = \"0.1.0\"\nbuild = \"build.rs\"\n\n[dependencies]\n"
    );
}

#[test]
fn build_line_goes_before_next_table() {
    let content = "[package]\nname = \"x\"\n[dependencies]\nfoo = \"1\"";
    assert_eq!(
        insert_toml_line(content, "[package]", "k = 1"),
        "[package]\nname = \"x\"\nk = 1\n[dependencies]\nfoo = \"1\"\n"
    );
}

#[test]
fn no_header_or_no_section_end_leaves_lines() {
    assert_eq!(insert_toml_line("a = 1\r\nb = 2", "[package]", "k = 1"), "a = 1\nb = 2\n");
    assert_eq!(insert_toml_line("[package]\nname = 1\n", "[package]", "k = 1"), "[package]\nname = 1\n");
    assert_eq!(insert_toml_line("", "[package]", "k = 1"), "");
}

#[test]
fn only_first_header_and_first_end_count() {
    let content = "[package]\n\n[package]\n\n";
    assert_eq!(insert_toml_line(content, "[package]", "k"), "[package]\nk\n\n[package]\n\n");
}

#[test]
fn crlf_and_trailing_cr() {
    assert_eq!(insert_toml_line("[package]\r\nx\r\n\r\n", "[package]", "k"), "[package]\nx\nk\n\n");
    assert_eq!(insert_toml_line("a\r", "[package]", "k"), "a\r\n");
}
