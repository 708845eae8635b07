use onchange::paths::{absolutize, dir_of, extension_of, file_name_of, file_stem_of};
use onchange::resolve::{apply_var_lines, builtin_vars, parse_var_line};
use onchange::varmap::VariableMap;

fn get(m: &VariableMap, key: &str) -> String {
    m.get(&String::from(key)).expect(key).clone()
}

#[test]
fn builtin_variables_round_trip() {
    let m = builtin_vars(&String::from("/a/b/c.txt"), &String::from("/a")).unwrap();
    assert_eq!(get(&m, "dir"), "/a/b");
    assert_eq!(get(&m, "name"), "c");
    assert_eq!(get(&m, "ext"), "txt");
    assert_eq!(get(&m, "name.ext"), "c.txt");
    assert_eq!(get(&m, "rdir"), "b");
    assert_eq!(get(&m, "rpath"), "b/c.txt");
    assert_eq!(get(&m, "rname"), "b/c.txt");
    assert_eq!(get(&m, "pwd"), "/a");
    assert_eq!(get(&m, "path"), "/a/b/c.txt");
}

#[test]
fn builtin_variables_for_file_in_pwd() {
    let m = builtin_vars(&String::from("/w/x.ts"), &String::from("/w")).unwrap();
    assert_eq!(get(&m, "name"), "x");
    assert_eq!(get(&m, "ext"), "ts");
    assert_eq!(get(&m, "rpath"), "x.ts");
    assert_eq!(get(&m, "dir"), "/w");
}

#[test]
fn path_components_of_plain_cases() {
    assert_eq!(file_name_of("/a/b/c.txt"), "c.txt");
    assert_eq!(file_stem_of("/a/b/c.txt"), "c");
    assert_eq!(extension_of("/a/b/c.txt"), "txt");
    assert_eq!(dir_of("/a/b/c.txt"), "/a/b");
}

#[test]
fn path_components_of_edge_cases() {
    assert_eq!(dir_of("/a"), "/");
    assert_eq!(dir_of("a.txt"), "");
    assert_eq!(file_name_of("a.txt"), "a.txt");
    // a leading dot starts no extension
    assert_eq!(file_stem_of("/w/.hidden"), ".hidden");
    assert_eq!(extension_of("/w/.hidden"), "");
    // a trailing dot gives an empty extension
    assert_eq!(file_stem_of("/w/foo."), "foo");
    assert_eq!(extension_of("/w/foo."), "");
    assert_eq!(extension_of("/w/noext"), "");
}

#[test]
fn absolutize_joins_relative_paths() {
    assert_eq!(absolutize(&String::from("x.txt"), &String::from("/w")), "/w/x.txt");
    assert_eq!(absolutize(&String::from("/abs/y"), &String::from("/w")), "/abs/y");
    assert_eq!(absolutize(&String::from("x.txt"), &String::from("/w/")), "/w/x.txt");
}

#[test]
fn parse_line_splits_on_first_colon_and_trims() {
    assert_eq!(
        parse_var_line("color: blue"),
        Some((String::from("color"), String::from("blue")))
    );
    assert_eq!(
        parse_var_line("  key\t:  value  "),
        Some((String::from("key"), String::from("value")))
    );
    assert_eq!(parse_var_line("a:b:c"), Some((String::from("a"), String::from("b:c"))));
    assert_eq!(parse_var_line("no colon here"), None);
    assert_eq!(parse_var_line(":v"), Some((String::from(""), String::from("v"))));
}

#[test]
fn builtin_variables_need_a_relative_path() {
    // a relative path against an absolute working directory has no
    // relative form, which drops the event
    assert!(builtin_vars(&String::from("x.txt"), &String::from("/w")).is_none());
}

#[test]
fn builtin_variables_in_a_nested_directory() {
    let m = builtin_vars(&String::from("/a/b/c/d.rs"), &String::from("/a/b")).unwrap();
    assert_eq!(get(&m, "rdir"), "c");
    assert_eq!(get(&m, "rpath"), "c/d.rs");
    assert_eq!(get(&m, "rname"), "c/d.rs");
}

#[test]
fn parse_line_with_blank_value_keeps_the_key() {
    assert_eq!(parse_var_line("k:"), Some((String::from("k"), String::from(""))));
    assert_eq!(parse_var_line("k:   \t"), Some((String::from("k"), String::from(""))));
}

#[test]
fn auxiliary_lines_enrich_the_map() {
    let mut m = builtin_vars(&String::from("/w/x.ts"), &String::from("/w")).unwrap();
    let lines = vec![String::from("color: blue"), String::from("noise without shape")];
    apply_var_lines(&mut m, &lines);
    assert_eq!(get(&m, "color"), "blue");
    assert_eq!(get(&m, "name"), "x");
}

#[test]
fn auxiliary_lines_overwrite_builtin_keys() {
    let mut m = builtin_vars(&String::from("/w/x.ts"), &String::from("/w")).unwrap();
    let lines = vec![String::from("name: other")];
    apply_var_lines(&mut m, &lines);
    assert_eq!(get(&m, "name"), "other");
}

#[test]
fn variable_map_is_last_write_wins() {
    let mut m = VariableMap::new();
    m.insert(String::from("k"), String::from("one"));
    m.insert(String::from("k"), String::from("two"));
    assert_eq!(get(&m, "k"), "two");
    assert_eq!(m.get(&String::from("absent")), None);
    assert_eq!(m.len(), 2);
}
