use std::collections::HashMap;

use argparse::{hashmap_parser, vec_parser, ArgParser, ArgType};

const LONG_STR: &'static str = r#"Check your proxy settings or contact your network administrator to make sure the proxy server is working. If you don't believe you should be using a proxy server: Go to the Chromium menu > Settings > Show advanced settings... > Change proxy settings... and make sure your configuration is set to "no proxy" or "direct.""#;

fn setup_1() -> ArgParser {
    let mut parser = ArgParser::new("ArgParsers".into());

    parser.add_opt("length", None, 'l', true, LONG_STR, ArgType::Option);
    parser.add_opt("height", None, 'h', true, "Height of user in centimeters", ArgType::Option);
    parser.add_opt("name", None, 'n', true, "Name of user", ArgType::Option);
    parser.add_opt("frequencies", None, 'f', false, "User's favorite frequencies", ArgType::List);
    parser.add_opt("mao", Some("false"), 'm', false, "Is the User Chairman Mao?", ArgType::Flag);

    parser
}

fn tokens(s: &str) -> Vec<String> {
    s.split_whitespace().map(|s| s.into()).collect::<Vec<String>>()
}

#[test]
fn test_parser() {
    let parser = setup_1();

    let test_1 = tokens("./go -l -60 -h -6001.45e-2 -n Johnny --mao -f 1 2 3 4 5");

    let p_res = parser.parse(&test_1).unwrap();

    assert!(p_res.get("length") == Some(-60));
    assert_eq!(p_res.get("height"), Some(-6001.45e-2));
    assert_eq!(p_res.get::<String>("name"), Some("Johnny".into()));
    assert_eq!(p_res.get_with("frequencies", vec_parser), Some(vec![1, 2, 3, 4, 5]));
    assert_eq!(p_res.get("mao"), Some(true));

    parser.help();
}

#[test]
fn test_parser_unrequired() {
    let parser = setup_1();

    let test_1 = tokens("./go -l -60 -h -6001.45e-2 -n Johnny -f 1 2 3 4 5");

    let p_res = parser.parse(&test_1).unwrap();

    assert!(p_res.get("length") == Some(-60));
    assert_eq!(p_res.get("height"), Some(-6001.45e-2));
    assert_eq!(p_res.get::<String>("name"), Some("Johnny".into()));
    assert_eq!(p_res.get_with("frequencies", vec_parser), Some(vec![1, 2, 3, 4, 5]));
    assert_eq!(p_res.get("mao"), Some(false));

    parser.help();
}

#[test]
fn test_parser_unrequired_nodefault() {
    let parser = setup_1();

    let test_1 = tokens("./go -l -60 -h -6001.45e-2 -n Johnny");

    let p_res = parser.parse(&test_1).unwrap();

    assert!(p_res.get("length") == Some(-60));
    assert_eq!(p_res.get("height"), Some(-6001.45e-2));
    assert_eq!(p_res.get::<String>("name"), Some("Johnny".into()));
    assert_eq!(p_res.get_with::<Vec<u8>, _>("frequencies", vec_parser), None);
    assert_eq!(p_res.get("mao"), Some(false));

    parser.help();
}

#[test]
fn test_parser_dict() {
    let mut parser = setup_1();
    parser.add_opt("socks", None, 's', false, "If you wear socks that day", ArgType::Dict);

    let test_1 = tokens("./go -l -60 -h -6001.45e-2 -n Johnny -s Monday:true Friday:false");

    let p_res = parser.parse(&test_1).unwrap();

    assert!(p_res.get("length") == Some(-60));
    assert_eq!(p_res.get("height"), Some(-6001.45e-2));
    assert_eq!(p_res.get::<String>("name"), Some("Johnny".into()));
    assert_eq!(p_res.get_with::<Vec<u8>, _>("frequencies", vec_parser), None);
    assert_eq!(p_res.get("mao"), Some(false));

    let h = [("Monday", true), ("Friday", false)]
        .iter()
        .map(|&(k, v)| (k.into(), v))
        .collect();

    assert_eq!(p_res.get_with::<HashMap<String, bool>, _>("socks", hashmap_parser), Some(h));

    parser.help();
}

#[test]
fn test_parser_positional() {
    let mut parser = setup_1();

    parser.add_opt("csv", None, 'c', true, "csv input file", ArgType::Positional(0));
    parser.add_opt("json", None, 'j', true, "json output file", ArgType::Positional(1));

    let test_1 = tokens("./go -l -60 -h -6001.45e-2 -n Johnny crap.csv crap.json");

    let p_res = parser.parse(&test_1).unwrap();

    assert!(p_res.get("length") == Some(-60));
    assert_eq!(p_res.get("height"), Some(-6001.45e-2));
    assert_eq!(p_res.get::<String>("name"), Some("Johnny".into()));
    assert_eq!(p_res.get_with::<Vec<u8>, _>("frequencies", vec_parser), None);
    assert_eq!(p_res.get("mao"), Some(false));
    assert_eq!(p_res.get::<String>("csv"), Some("crap.csv".into()));
    assert_eq!(p_res.get::<String>("json"), Some("crap.json".into()));

    parser.help();
}
