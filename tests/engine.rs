use argparse::tokens::{is_any_flag, is_flag, is_long_flag, separate_flags};
use argparse::{
    collect_all, collect_pairs, hashmap_parser, split_pairs, split_words, vec_parser, ArgParser, ArgType, ParseError,
};
use std::collections::HashMap;

fn toks(s: &str) -> Vec<String> {
    s.split_whitespace().map(|s| s.to_string()).collect()
}

fn strings(v: &[&str]) -> Vec<String> {
    v.iter().map(|s| s.to_string()).collect()
}

fn switches() -> ArgParser {
    let mut p = ArgParser::new("sw".into());
    p.add_opt("alpha", Some("false"), 'a', false, "first", ArgType::Flag);
    p.add_opt("beta", Some("false"), 'b', false, "second", ArgType::Flag);
    p.add_opt("gamma", Some("false"), 'c', false, "third", ArgType::Flag);
    p
}

fn mixed() -> ArgParser {
    let mut p = ArgParser::new("mixed".into());
    p.add_opt("name", None, 'n', false, "a name", ArgType::Option);
    p.add_opt("freq", None, 'f', false, "numbers", ArgType::List);
    p.add_opt("verbose", Some("false"), 'v', false, "talk more", ArgType::Flag);
    p.add_opt("first", None, 'x', false, "first free token", ArgType::Positional(0));
    p.add_opt("second", None, 'y', false, "second free token", ArgType::Positional(1));
    p
}

#[test]
fn omitted_flag_keeps_default() {
    let p = mixed();
    let r = p.parse(&toks("./m -n bob")).unwrap();
    assert_eq!(r.value("verbose"), Some("false".to_string()));
    assert_eq!(r.get::<bool>("verbose"), Some(false));
    assert_eq!(r.count("verbose"), Some(0));
    assert_eq!(r.value("freq"), None);
    assert_eq!(r.count("freq"), Some(0));
    assert_eq!(r.count("name"), Some(1));
}

#[test]
fn bundled_short_flags_match_separate_ones() {
    let p = switches();
    let bundled = p.parse(&toks("./sw -abc")).unwrap();
    let separate = p.parse(&toks("./sw -a -b -c")).unwrap();
    for name in ["alpha", "beta", "gamma"] {
        assert_eq!(bundled.get::<bool>(name), Some(true));
        assert_eq!(bundled.value(name), separate.value(name));
        assert_eq!(bundled.count(name), separate.count(name));
    }
    let partial = p.parse(&toks("./sw -ac")).unwrap();
    assert_eq!(partial.get::<bool>("beta"), Some(false));
}

#[test]
fn list_stops_at_next_flag() {
    let p = mixed();
    let r = p.parse(&toks("./m -f 1 2 3 -v tail more")).unwrap();
    assert_eq!(r.value("freq"), Some("1 2 3".to_string()));
    assert_eq!(r.get::<bool>("verbose"), Some(true));
    assert_eq!(r.value("first"), Some("tail".to_string()));
    assert_eq!(r.value("second"), Some("more".to_string()));

    let r = p.parse(&toks("./m -f 4 5 --name bob")).unwrap();
    assert_eq!(r.value("freq"), Some("4 5".to_string()));
    assert_eq!(r.value("name"), Some("bob".to_string()));

    let r = p.parse(&toks("./m -f -v")).unwrap();
    assert_eq!(r.value("freq"), Some("".to_string()));
}

#[test]
fn list_flag_at_end_is_missing_value() {
    let p = mixed();
    match p.parse(&toks("./m -v -f")) {
        Err(ParseError::MissingValue(n)) => assert_eq!(n, "freq"),
        other => panic!("unexpected {:?}", other),
    }
}

#[test]
fn value_flag_without_value_is_missing_value() {
    let p = mixed();
    match p.parse(&toks("./m -n")) {
        Err(e) => {
            assert_eq!(e.message(), "This option `name` requires a value you have not provided");
            match e {
                ParseError::MissingValue(n) => assert_eq!(n, "name"),
                other => panic!("unexpected {:?}", other),
            }
        },
        Ok(_) => panic!("a value option at the end must fail"),
    }
    match p.parse(&toks("./m --name -v")) {
        Err(ParseError::MissingValue(n)) => assert_eq!(n, "name"),
        other => panic!("unexpected {:?}", other),
    }
}

#[test]
fn full_command_line() {
    let mut p = ArgParser::new("argparse".into());
    p.add_opt("length", None, 'l', true, "length", ArgType::Option);
    p.add_opt("height", None, 'h', true, "height", ArgType::Option);
    p.add_opt("name", None, 'n', true, "name", ArgType::Option);
    p.add_opt("frequencies", None, 'f', false, "frequencies", ArgType::List);
    p.add_opt("mao", Some("false"), 'm', false, "mao", ArgType::Flag);
    p.add_opt("socks", None, 's', false, "socks", ArgType::Dict);
    let line = "./go -l -60 -h -6001.45e-2 -n Johnny -m -f 1 2 3 4 5 -s Monday:true Friday:false";
    let r = p.parse(&toks(line)).unwrap();
    assert_eq!(r.get::<i32>("length"), Some(-60));
    assert_eq!(r.get::<f64>("height"), Some(-6001.45e-2));
    assert_eq!(r.get::<String>("name"), Some("Johnny".to_string()));
    assert_eq!(r.get::<bool>("mao"), Some(true));
    assert_eq!(r.get_with("frequencies", vec_parser), Some(vec![1, 2, 3, 4, 5]));
    let mut socks = HashMap::new();
    socks.insert("Monday".to_string(), true);
    socks.insert("Friday".to_string(), false);
    assert_eq!(r.get_with::<HashMap<String, bool>, _>("socks", hashmap_parser), Some(socks));
    assert_eq!(r.value("frequencies"), Some("1 2 3 4 5".to_string()));
    assert_eq!(r.value("socks"), Some("Monday:true Friday:false".to_string()));
}

#[test]
fn positional_skips_consumed_tokens() {
    let p = mixed();
    let r = p.parse(&toks("./m one -n bob two")).unwrap();
    assert_eq!(r.value("first"), Some("one".to_string()));
    assert_eq!(r.value("second"), Some("two".to_string()));
    let r = p.parse(&toks("./m -n a a")).unwrap();
    assert_eq!(r.value("name"), Some("a".to_string()));
    assert_eq!(r.value("first"), Some("a".to_string()));
    assert_eq!(r.value("second"), None);
}

#[test]
fn repeated_parse_is_identical() {
    let p = mixed();
    let line = toks("./m -f 1 2 -n x y -v z");
    let r1 = p.parse(&line).unwrap();
    let r2 = p.parse(&line).unwrap();
    for name in ["name", "freq", "verbose", "first", "second", "help"] {
        assert_eq!(r1.value(name), r2.value(name));
        assert_eq!(r1.count(name), r2.count(name));
    }
    assert_eq!(format!("{:?}", r1), format!("{:?}", r2));
}

#[test]
fn one_bad_token_discards_the_whole_list() {
    assert_eq!(vec_parser::<i32>("1 2 x 4"), None);
    assert_eq!(vec_parser::<i32>("1 2 3 4"), Some(vec![1, 2, 3, 4]));
    assert_eq!(vec_parser::<i32>("   "), None);
    assert_eq!(collect_all(vec![Some(1), None, Some(3)]), None);
    assert_eq!(collect_all(vec![Some(1), Some(2)]), Some(vec![1, 2]));
    assert_eq!(collect_all::<u8>(vec![]), None);
}

#[test]
fn dict_conversion_edges() {
    assert_eq!(hashmap_parser::<String, bool>("a:true b"), None);
    assert_eq!(hashmap_parser::<String, bool>("a:true b:maybe"), None);
    assert_eq!(hashmap_parser::<String, bool>(""), None);
    let mut h = HashMap::new();
    h.insert("k".to_string(), "v:w".to_string());
    assert_eq!(hashmap_parser::<String, String>("k:v:w"), Some(h));
    assert_eq!(
        split_pairs("a:1 :2 b:"),
        Some(vec![
            ("a".to_string(), "1".to_string()),
            ("".to_string(), "2".to_string()),
            ("b".to_string(), "".to_string()),
        ])
    );
    assert_eq!(split_pairs("nocolon"), None);
}

#[test]
fn words_split_on_any_whitespace() {
    assert_eq!(split_words("  a\tbc\n d  "), strings(&["a", "bc", "d"]));
    assert_eq!(split_words(""), Vec::<String>::new());
}

#[test]
fn empty_registry_is_rejected() {
    let mut p = ArgParser::new("e".into());
    assert_eq!(p.remove_opt("help"), Ok(()));
    match p.parse(&toks("./e")) {
        Err(e) => {
            assert_eq!(e.message(), "No arguments given to parse");
            assert!(matches!(e, ParseError::EmptyRegistry));
        },
        Ok(_) => panic!("an empty registry must fail"),
    }
}

#[test]
fn missing_required_is_rejected() {
    let mut p = ArgParser::new("r".into());
    p.add_opt("input", None, 'i', true, "input", ArgType::Option);
    match p.parse(&toks("./r")) {
        Err(e) => {
            assert_eq!(e.message(), "Not all required arguments are found");
            assert!(matches!(e, ParseError::MissingRequired));
        },
        Ok(_) => panic!("a missing required option must fail"),
    }
    let mut q = ArgParser::new("r".into());
    q.add_opt("input", Some("in.txt"), 'i', true, "input", ArgType::Option);
    assert_eq!(q.parse(&toks("./r")).unwrap().value("input"), Some("in.txt".to_string()));
}

#[test]
fn remove_unknown_option_fails() {
    let mut p = ArgParser::new("r".into());
    assert_eq!(p.remove_opt("nothing"), Err("No such Option"));
    p.add_opt("x", None, 'x', false, "x", ArgType::Flag);
    assert_eq!(p.remove_opt("x"), Ok(()));
    assert_eq!(p.remove_opt("x"), Err("No such Option"));
}

#[test]
fn redeclaring_replaces_and_last_match_wins() {
    let mut p = ArgParser::new("r".into());
    p.add_opt("opt", None, 'o', false, "as a switch", ArgType::Flag);
    p.add_opt("opt", None, 'p', false, "as a value", ArgType::Option);
    let r = p.parse(&toks("./r -p a --opt b")).unwrap();
    assert_eq!(r.value("opt"), Some("b".to_string()));
    assert_eq!(r.count("opt"), Some(2));
    assert_eq!(r.value("unknown"), None);
    assert_eq!(r.get::<String>("unknown"), None);
    assert_eq!(r.count("unknown"), None);
}

#[test]
fn conversion_failure_is_absent() {
    let p = mixed();
    let r = p.parse(&toks("./m -n bob")).unwrap();
    assert_eq!(r.get::<i32>("name"), None);
    assert_eq!(r.get_with("name", |s: &str| Some(s.len())), Some(3));
}

#[test]
fn flag_shapes() {
    assert!(is_flag("-a"));
    assert!(is_flag("-é"));
    assert!(!is_flag("-1"));
    assert!(!is_flag("-"));
    assert!(!is_flag("a-"));
    assert!(is_long_flag("--"));
    assert!(is_long_flag("--name"));
    assert!(!is_long_flag("-a"));
    assert!(is_any_flag("--x"));
    assert!(!is_any_flag("-6001.45e-2"));
}

#[test]
fn separate_flags_splits_bundles_only() {
    let out = separate_flags(strings(&["./x", "-abc", "--long", "-1x", "-é", "-q", "plain", "-aé"]));
    assert_eq!(
        out,
        strings(&["./x", "-a", "-b", "-c", "--long", "-1x", "-é", "-q", "plain", "-a", "-é"])
    );
}

#[test]
fn help_lists_every_option() {
    let mut p = ArgParser::new("prog".into());
    p.add_opt("length", None, 'l', true, "how long", ArgType::Option);
    p.add_opt("freq", None, 'f', false, "numbers", ArgType::List);
    p.add_opt("map", None, 'd', false, "pairs", ArgType::Dict);
    let h = p.help();
    assert!(h.starts_with("Usage:\t./prog [--help ] [--length LENGTH] [--freq FREQ...] [--map k:v k2:v2...] \n"));
    assert!(h.contains("Options:\n\n--help (-h)\tRequired: false\tType: Flag\n\tShow this help message\n\n"));
    assert!(h.contains("--length (-l)\tRequired: true\tType: Option\n\thow long\n\n"));
    assert!(h.contains("--map (-d)\tRequired: false\tType: Dict\n"));
}

#[test]
fn help_wraps_long_text() {
    let mut p = ArgParser::new("w".into());
    let text = "word ".repeat(20);
    p.add_opt("long", None, 'l', false, &text, ArgType::Positional(0));
    let h = p.help();
    assert!(h.contains("Type: Positional\n"));
    let expected = format!("\t{}\n\t\t{}\n\n", &text[..65], &text[65..]);
    assert!(h.ends_with(&expected));
}

#[test]
fn dict_splits_at_first_colon_only() {
    let mut h = HashMap::new();
    h.insert("url".to_string(), "http://x".to_string());
    h.insert("a".to_string(), "".to_string());
    assert_eq!(hashmap_parser::<String, String>("url:http://x a:"), Some(h));
}

#[test]
fn dict_bad_key_or_value_discards_the_map() {
    assert_eq!(hashmap_parser::<i32, bool>("1:true x:false"), None);
    assert_eq!(hashmap_parser::<i32, bool>("1:true 2:nope"), None);
    let mut h = HashMap::new();
    h.insert(1, true);
    h.insert(2, false);
    assert_eq!(hashmap_parser::<i32, bool>("1:true 2:false"), Some(h));
}

#[test]
fn dict_later_duplicate_key_wins() {
    let mut h = HashMap::new();
    h.insert("k".to_string(), 3);
    assert_eq!(hashmap_parser::<String, u8>("k:1 k:3"), Some(h));
}

#[test]
fn collect_pairs_all_or_nothing() {
    assert_eq!(collect_pairs::<u8, u8>(vec![]), None);
    assert_eq!(collect_pairs(vec![Some((1, 2)), None]), None);
    let mut h = HashMap::new();
    h.insert(1, 5);
    h.insert(2, 4);
    assert_eq!(collect_pairs(vec![Some((1, 2)), Some((2, 4)), Some((1, 5))]), Some(h));
}

#[test]
fn unicode_whitespace_splits_words() {
    assert_eq!(split_words("a\u{a0}b\u{3000}c\u{2009}d"), strings(&["a", "b", "c", "d"]));
    assert_eq!(split_words("a\u{200b}b"), strings(&["a\u{200b}b"]));
    assert_eq!(split_words("x\u{85}y\u{b}z"), strings(&["x", "y", "z"]));
}
