use bean_scope::cli::parse_args;

fn args(list: &[&str]) -> Vec<String> {
    list.iter().map(|s| String::from(*s)).collect()
}

#[test]
fn no_arguments_at_all() {
    let r = parse_args(args(&["beans"]));
    assert!(r.no_args);
    assert!(!r.f_help);
    assert!(r.path.is_none());
}

#[test]
fn long_and_short_options() {
    let r = parse_args(args(&["beans", "--help"]));
    assert!(r.f_help && !r.no_args);
    let r = parse_args(args(&["beans", "-h"]));
    assert!(r.f_help);
    let r = parse_args(args(&["beans", "--parse", "main.bean"]));
    assert!(r.f_parse && !r.f_tokenize);
    assert_eq!(r.path, Some(String::from("main.bean")));
    let r = parse_args(args(&["beans", "-l", "main.bean"]));
    assert!(r.f_tokenize);
    let r = parse_args(args(&["beans", "--stdin"]));
    assert!(r.f_stdin);
    let r = parse_args(args(&["beans", "-i"]));
    assert!(r.f_stdin);
}

#[test]
fn first_non_option_is_the_path() {
    let r = parse_args(args(&["beans", "-p", "a.bean", "b.bean"]));
    assert_eq!(r.path, Some(String::from("a.bean")));
    let r = parse_args(args(&["beans", "a.bean", "-p"]));
    assert_eq!(r.path, Some(String::from("a.bean")));
    assert!(r.f_parse);
}

#[test]
fn unknown_options_set_nothing() {
    let r = parse_args(args(&["beans", "--frobnicate"]));
    assert!(!r.f_help && !r.f_parse && !r.f_tokenize && !r.f_stdin);
    assert!(r.path.is_none());
}
