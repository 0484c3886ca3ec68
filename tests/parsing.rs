use stamp_tour::args::{handle_args, parse_port};
use stamp_tour::assets::{
    file_extension, file_kind, fill_stamp_id, html_file_name, is_binary_extension, is_missing,
    FileKind, MISSING_FILE,
};
use stamp_tour::query::stamp_id_from_query;

fn args(v: &[&str]) -> Vec<String> {
    v.iter().map(|s| s.to_string()).collect()
}

#[test]
fn handle_args_reads_all_three_options() {
    let a = args(&["prog", "-a", "0.0.0.0", "-p", "8080", "--protocol", "https"]);
    let n = a.len();
    let info = handle_args(a, n);
    assert_eq!(info.address, "0.0.0.0");
    assert_eq!(info.port, 8080);
    assert_eq!(info.protocol, "https");
}

#[test]
fn handle_args_defaults() {
    let info = handle_args(args(&["prog"]), 1);
    assert_eq!(info.address, "127.0.0.1");
    assert_eq!(info.port, 80);
    assert_eq!(info.protocol, "http");
    let info = handle_args(Vec::new(), 0);
    assert_eq!(info.port, 80);
}

#[test]
fn handle_args_bad_port_and_last_pair_wins() {
    let info = handle_args(args(&["prog", "-p", "99999"]), 3);
    assert_eq!(info.port, 80);
    let info = handle_args(args(&["prog", "-p", "81", "-p", "82"]), 5);
    assert_eq!(info.port, 82);
    let info = handle_args(args(&["prog", "-p", "81", "-p", "x"]), 5);
    assert_eq!(info.port, 80);
    let info = handle_args(args(&["prog", "-a", "h1", "-a"]), 4);
    assert_eq!(info.address, "h1");
    let info = handle_args(args(&["prog", "x", "-a", "h2", "y"]), 5);
    assert_eq!(info.address, "127.0.0.1");
}

#[test]
fn parse_port_cases() {
    assert_eq!(parse_port(&"8080".to_string()), Some(8080));
    assert_eq!(parse_port(&"+80".to_string()), Some(80));
    assert_eq!(parse_port(&"65535".to_string()), Some(65535));
    assert_eq!(parse_port(&"0065535".to_string()), Some(65535));
    assert_eq!(parse_port(&"65536".to_string()), None);
    assert_eq!(parse_port(&"".to_string()), None);
    assert_eq!(parse_port(&"+".to_string()), None);
    assert_eq!(parse_port(&"-1".to_string()), None);
    assert_eq!(parse_port(&"8o".to_string()), None);
    for s in ["0", "443", "+7", "12345678901234567890", "٣"] {
        assert_eq!(parse_port(&s.to_string()), s.parse::<u16>().ok());
    }
}

#[test]
fn stamp_id_from_query_cases() {
    assert_eq!(stamp_id_from_query(&"s=abc".to_string()), "abc");
    assert_eq!(stamp_id_from_query(&"x=1&s=abc".to_string()), "abc");
    assert_eq!(stamp_id_from_query(&"s=a1&s=b2".to_string()), "a1&");
    assert_eq!(stamp_id_from_query(&"q=1".to_string()), "");
    assert_eq!(stamp_id_from_query(&"".to_string()), "");
    assert_eq!(stamp_id_from_query(&"s=".to_string()), "");
    for q in ["s=abc", "x=1&s=abc", "s=a1&s=b2", "q=1", "ss=z", "s=한글"] {
        let expected = q.split("s=").nth(1).unwrap_or_default().to_string();
        assert_eq!(stamp_id_from_query(&q.to_string()), expected);
    }
}

#[test]
fn file_extension_cases() {
    assert_eq!(file_extension(&"resources/img/logo.png".to_string()), "png");
    assert_eq!(file_extension(&"a.tar.gz".to_string()), "gz");
    assert_eq!(file_extension(&"README".to_string()), "README");
    assert_eq!(file_extension(&"dot.".to_string()), "");
}

#[test]
fn binary_extensions() {
    for e in ["ico", "png", "webp", "ttf", "woff2", "woff"] {
        assert!(is_binary_extension(&e.to_string()));
    }
    for e in ["svg", "html", "css", "PNG", ""] {
        assert!(!is_binary_extension(&e.to_string()));
    }
}

#[test]
fn html_file_name_cases() {
    assert_eq!(html_file_name(&"about".to_string()), "about.html");
    assert_eq!(html_file_name(&"style.css".to_string()), "style.css");
    assert_eq!(html_file_name(&"".to_string()), ".html");
}

#[test]
fn fill_stamp_id_cases() {
    let t = "<p>%STAMP_ID%</p><i>%STAMP_ID%</i>".to_string();
    assert_eq!(fill_stamp_id(&t, &"a1".to_string()), "<p>a1</p><i>a1</i>");
    assert_eq!(fill_stamp_id(&"no mark".to_string(), &"a1".to_string()), "no mark");
    assert_eq!(fill_stamp_id(&"%STAMP_ID".to_string(), &"a1".to_string()), "%STAMP_ID");
    assert_eq!(fill_stamp_id(&"".to_string(), &"a1".to_string()), "");
    for t in ["%STAMP_ID%%STAMP_ID%", "x%STAMP_%STAMP_ID%y", "한%STAMP_ID%글"] {
        assert_eq!(fill_stamp_id(&t.to_string(), &"z9".to_string()), t.replace("%STAMP_ID%", "z9"));
    }
}

#[test]
fn file_kind_and_missing_marker() {
    assert_eq!(file_kind(&"a/logo.png".to_string()), FileKind::Binary);
    assert_eq!(file_kind(&"a/icon.svg".to_string()), FileKind::Svg);
    assert_eq!(file_kind(&"a/index.html".to_string()), FileKind::Text);
    assert!(is_missing(&MISSING_FILE.to_string()));
    assert!(!is_missing(&"hello".to_string()));
}
