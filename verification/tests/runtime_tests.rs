use imag::codec::QueryError;
use imag::error::StoreError;
use imag::header_filter::{boolean, has, hasnt, integer, next_exit_code, string, IntFilter, StringFilter};
use imag::runtime::{
    config_path, editor_command, get_override_specs, get_rtp_match, ids_from_text, lines,
    stdout_stream, store_path, subcommand_binary, words, EditorError, OutputStream,
};
use imag::storeid::StoreId;
use imag::tag::{join, list_lines};
use imag::value::HeaderValue;

fn table(entries: Vec<(&str, HeaderValue)>) -> HeaderValue {
    HeaderValue::Table(entries.into_iter().map(|(k, v)| (String::from(k), v)).collect())
}

fn header() -> HeaderValue {
    table(vec![(
        "a",
        table(vec![
            ("flag", HeaderValue::Boolean(true)),
            ("off", HeaderValue::Boolean(false)),
            ("n", HeaderValue::Integer(5)),
            ("s", HeaderValue::String(String::from("text"))),
        ]),
    )])
}

fn no_int_filter() -> IntFilter {
    IntFilter { eq: None, neq: None, lt: None, gt: None, lte: None, gte: None }
}

#[test]
fn runtime_path_precedence() {
    assert_eq!(get_rtp_match(Some("/cli"), Some("/env"), Some("/home/u")), "/cli");
    assert_eq!(get_rtp_match(None, Some("/env"), Some("/home/u")), "/env");
    assert_eq!(get_rtp_match(None, None, Some("/home/u")), "/home/u/.imag");
    assert_eq!(config_path(Some("/etc/imagrc"), "/rtp"), "/etc/imagrc");
    assert_eq!(config_path(None, "/rtp"), "/rtp");
    assert_eq!(store_path(Some("/data"), "/rtp"), "/data");
    assert_eq!(store_path(None, "/rtp"), "/rtp/store");
    assert_eq!(subcommand_binary("imag-foo", "bar"), "imag-foo-bar");
    assert_eq!(stdout_stream(true), OutputStream::StandardError);
    assert_eq!(stdout_stream(false), OutputStream::StandardOutput);
}

#[test]
fn overrides_need_an_equals_sign() {
    let values = vec![
        String::from("a.b=1"),
        String::from("broken"),
        String::from("="),
        String::new(),
        String::from("x = y = z"),
    ];
    assert_eq!(get_override_specs(&values), vec!["a.b=1", "=", "x = y = z"]);
    assert!(get_override_specs(&Vec::new()).is_empty());
}

#[test]
fn text_is_read_line_by_line() {
    assert_eq!(lines("a\nb/c\r\n\nlast"), vec!["a", "b/c", "", "last"]);
    assert_eq!(lines("a\n"), vec!["a"]);
    assert_eq!(lines("\n"), vec![""]);
    assert!(lines("").is_empty());
    assert_eq!(lines("x\r"), vec!["x\r"]);
    assert_eq!(lines("\r\n"), vec![""]);
}

#[test]
fn ids_come_one_on_a_line() {
    let ids = ids_from_text("a\nb//c\r\ndir/\n").unwrap();
    assert_eq!(
        ids,
        vec![
            StoreId::new(String::from("a")).unwrap(),
            StoreId::new(String::from("b/c")).unwrap(),
            StoreId::new(String::from("dir")).unwrap(),
        ]
    );
    assert_eq!(ids_from_text("a\n/abs\nb"), Err(StoreError::InvalidId));
    assert_eq!(ids_from_text(""), Ok(Vec::new()));
}

#[test]
fn integers_are_compared() {
    let h = header();
    assert_eq!(integer(&h, "a.n", &no_int_filter()), Ok(Some(5)));
    assert_eq!(integer(&h, "a.n", &IntFilter { eq: Some(5), ..no_int_filter() }), Ok(Some(5)));
    assert_eq!(integer(&h, "a.n", &IntFilter { eq: Some(6), ..no_int_filter() }), Ok(None));
    assert_eq!(integer(&h, "a.n", &IntFilter { neq: Some(5), ..no_int_filter() }), Ok(None));
    assert_eq!(integer(&h, "a.n", &IntFilter { lt: Some(5), ..no_int_filter() }), Ok(None));
    assert_eq!(integer(&h, "a.n", &IntFilter { lt: Some(6), gt: Some(4), ..no_int_filter() }), Ok(Some(5)));
    assert_eq!(integer(&h, "a.n", &IntFilter { gt: Some(5), ..no_int_filter() }), Ok(None));
    assert_eq!(integer(&h, "a.n", &IntFilter { lte: Some(5), gte: Some(5), ..no_int_filter() }), Ok(Some(5)));
    assert_eq!(integer(&h, "a.n", &IntFilter { lte: Some(4), ..no_int_filter() }), Ok(None));
    assert_eq!(integer(&h, "a.n", &IntFilter { gte: Some(6), ..no_int_filter() }), Ok(None));
    assert_eq!(integer(&h, "a.s", &no_int_filter()), Ok(None));
    assert_eq!(integer(&h, "a.missing", &no_int_filter()), Ok(None));
    assert_eq!(integer(&h, "a.n.deeper", &no_int_filter()), Err(QueryError::Failed));
    assert_eq!(integer(&h, "a.[0]", &no_int_filter()), Err(QueryError::UnsupportedPath));
    assert!(no_int_filter().filter(i64::MIN));
}

#[test]
fn strings_and_truth_values_are_compared() {
    let h = header();
    let any = StringFilter { eq: None, neq: None };
    assert_eq!(string(&h, "a.s", &any), Ok(Some(String::from("text"))));
    let same = StringFilter { eq: Some(String::from("text")), neq: None };
    assert_eq!(string(&h, "a.s", &same), Ok(Some(String::from("text"))));
    let other = StringFilter { eq: Some(String::from("other")), neq: None };
    assert_eq!(string(&h, "a.s", &other), Ok(None));
    let not_same = StringFilter { eq: None, neq: Some(String::from("text")) };
    assert_eq!(string(&h, "a.s", &not_same), Ok(None));
    assert_eq!(string(&h, "a.n", &any), Ok(None));
    assert_eq!(boolean(&h, "a.flag"), Ok(Some(true)));
    assert_eq!(boolean(&h, "a.off"), Ok(None));
    assert_eq!(boolean(&h, "a.n"), Ok(None));
    assert_eq!(has(&h, "a.n"), Ok(true));
    assert_eq!(has(&h, "a.z"), Ok(false));
    assert_eq!(hasnt(&h, "a.n"), Ok(false));
    assert_eq!(hasnt(&h, "a.z"), Ok(true));
    assert_eq!(has(&h, "a.n.x"), Err(QueryError::Failed));
}

#[test]
fn exit_codes_add_up() {
    assert_eq!(next_exit_code(0, true, None), 0);
    assert_eq!(next_exit_code(0, false, None), 1);
    assert_eq!(next_exit_code(1, true, None), 1);
    assert_eq!(next_exit_code(0, true, Some(74)), 74);
    assert_eq!(next_exit_code(0, false, Some(74)), 1);
}

#[test]
fn editor_commands_are_split_into_words() {
    assert_eq!(words("  vim  -u\tNONE \n"), vec!["vim", "-u", "NONE"]);
    assert_eq!(words("emacs"), vec!["emacs"]);
    assert!(words(" \t ").is_empty());
    assert!(words("").is_empty());
    assert_eq!(words("a\u{a0}b\u{2003}c"), vec!["a", "b", "c"]);
    assert_eq!(
        editor_command(Some("vim -p"), Some("nano")),
        Ok(Some(vec![String::from("vim"), String::from("-p")]))
    );
    assert_eq!(editor_command(None, Some("nano")), Ok(Some(vec![String::from("nano")])));
    assert_eq!(editor_command(Some("  "), Some("nano")), Ok(None));
    assert_eq!(editor_command(None, None), Err(EditorError::NotConfigured));
}

#[test]
fn tags_are_listed() {
    let tags = vec![String::from("a"), String::from("b"), String::from("c")];
    assert_eq!(join(&tags, ", "), "a, b, c");
    assert_eq!(join(&tags, ""), "abc");
    assert_eq!(join(&Vec::new(), ", "), "");
    assert_eq!(join(&vec![String::from("only")], "-"), "only");
    assert_eq!(list_lines(&tags, false, None, false), vec!["a, b, c"]);
    assert_eq!(list_lines(&tags, true, None, false), vec!["a", "b", "c"]);
    assert_eq!(list_lines(&tags, false, Some("|"), false), vec!["a|b|c"]);
    assert_eq!(list_lines(&tags, false, None, true), vec!["a, b, c"]);
    assert_eq!(
        list_lines(&tags, true, Some(" "), true),
        vec!["a", "b", "c", "a b c", "a, b, c"]
    );
    assert_eq!(list_lines(&Vec::new(), false, None, false), vec![""]);
}
