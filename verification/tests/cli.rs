use maggedik::cli::{has_txt_extension, Maggedik};
use maggedik::engine::serialize;
use maggedik::error::ErrMessage;
use maggedik::operator::Operator;

fn cli_args(words: &[&str]) -> Vec<String> {
    words.iter().map(|w| w.to_string()).collect()
}

fn cli_lines(texts: &[&str]) -> Vec<String> {
    texts.iter().map(|t| t.to_string()).collect()
}

#[test]
fn new_accepts_a_complete_command_line() {
    let m = Maggedik::new(cli_args(&["prog", "a.txt", "f", "cat"])).unwrap();
    assert_eq!(m.operator(), Operator::Find);
    assert_eq!(m.source(), "a.txt");
    assert_eq!(m.keyword(), "cat");
    let m = Maggedik::new(cli_args(&["prog", "dir/b.txt", "rp", "cat", "dog"])).unwrap();
    assert_eq!(m.operator(), Operator::Replace);
    assert_eq!(m.source(), "dir/b.txt");
}

#[test]
fn new_accepts_every_code() {
    let codes = [
        ("f", Operator::Find),
        ("rp", Operator::Replace),
        ("uc", Operator::Uppercase),
        ("lc", Operator::Lowercase),
        ("d", Operator::Delete),
        ("nl", Operator::NewLine),
    ];
    for (code, op) in codes {
        let m = Maggedik::new(cli_args(&["prog", "a.txt", code, "cat", "dog"])).unwrap();
        assert_eq!(m.operator(), op);
    }
}

#[test]
fn new_refuses_too_few_arguments() {
    for args in [
        cli_args(&[]),
        cli_args(&["prog"]),
        cli_args(&["prog", "a.txt"]),
        cli_args(&["prog", "a.txt", "f"]),
        cli_args(&["prog", "a.txt", "rp", "cat"]),
    ] {
        let err = Maggedik::new(args).unwrap_err();
        assert!(matches!(err, ErrMessage::Syntax(_)));
        assert_eq!(err.message(), "invalid syntax..");
    }
}

#[test]
fn new_refuses_an_unknown_code() {
    for args in [
        cli_args(&["prog", "a.txt", "x", "cat"]),
        cli_args(&["prog", "a.txt", "find", "cat"]),
        cli_args(&["prog", "a.md", "x", "cat"]),
        cli_args(&["prog", "a.txt", "x"]),
    ] {
        let err = Maggedik::new(args).unwrap_err();
        assert!(matches!(err, ErrMessage::OpCode(_)));
        assert_eq!(err.message(), "invalid operation code..");
    }
}

#[test]
fn new_refuses_another_extension() {
    for args in [
        cli_args(&["prog", "a.md", "f", "cat"]),
        cli_args(&["prog", "a", "f", "cat"]),
        cli_args(&["prog", "a.txt.bak", "uc", "cat"]),
        cli_args(&["prog", "atxt", "d", "cat"]),
        cli_args(&["prog", "a.md", "f"]),
    ] {
        let err = Maggedik::new(args).unwrap_err();
        assert!(matches!(err, ErrMessage::Other(_)));
        assert_eq!(err.message(), "unsupported file extension..");
    }
}

#[test]
fn txt_extension() {
    assert!(has_txt_extension("a.txt"));
    assert!(has_txt_extension("./dir.d/a.txt"));
    assert!(has_txt_extension(".txt"));
    assert!(!has_txt_extension("a.TXT"));
    assert!(!has_txt_extension("a.txt "));
    assert!(!has_txt_extension("txt"));
    assert!(!has_txt_extension(""));
    assert!(!has_txt_extension("a.tx"));
}

#[test]
fn process_runs_the_operation_of_the_command_line() {
    let file = cli_lines(&["cat sat", "concatenate", "cat"]);
    let m = Maggedik::new(cli_args(&["prog", "a.txt", "f", "cat"])).unwrap();
    let out = m.process(&file).unwrap();
    assert_eq!(out.report.total(), 3);
    assert_eq!(out.report.op_type(), Operator::Find);
    assert!(out.rewritten.is_none());

    let m = Maggedik::new(cli_args(&["prog", "a.txt", "uc", "cat"])).unwrap();
    let out = m.process(&file).unwrap();
    assert_eq!(
        out.rewritten.unwrap(),
        cli_lines(&["CAT sat", "concatenate", "CAT"])
    );

    let m = Maggedik::new(cli_args(&["prog", "a.txt", "rp", "cat", "dog"])).unwrap();
    let out = m.process(&file).unwrap();
    assert_eq!(
        serialize(&out.rewritten.unwrap()),
        "dog sat\nconcatenate\ndog\n"
    );
    assert_eq!(
        out.report.render(),
        "total matches : 3\nat line: 1\nat line: 2\nat line: 3\nResult type : Replace\n"
    );

    let m = Maggedik::new(cli_args(&["prog", "a.txt", "lc", "CAT"])).unwrap();
    let out = m.process(&cli_lines(&["a CAT"])).unwrap();
    assert_eq!(out.rewritten.unwrap(), cli_lines(&["a cat"]));

    let m = Maggedik::new(cli_args(&["prog", "a.txt", "d", "cat"])).unwrap();
    let out = m.process(&file).unwrap();
    assert_eq!(out.rewritten.unwrap(), cli_lines(&[" sat", "concatenate", ""]));

    let m = Maggedik::new(cli_args(&["prog", "a.txt", "nl", "cat"])).unwrap();
    let out = m.process(&file).unwrap();
    assert_eq!(
        out.rewritten.unwrap(),
        cli_lines(&["cat\n sat", "concatenate", "cat\n"])
    );
}

#[test]
fn each_operation_can_be_run_by_name() {
    let file = cli_lines(&["a cat", "b"]);
    let m = Maggedik::new(cli_args(&["prog", "a.txt", "f", "cat", "dog"])).unwrap();
    let out = m.find(&file);
    assert_eq!(out.report.op_type(), Operator::Find);
    assert_eq!(out.report.total(), 1);
    assert!(out.rewritten.is_none());
    let out = m.replace(&file).unwrap();
    assert_eq!(out.report.op_type(), Operator::Replace);
    assert_eq!(out.rewritten.unwrap(), cli_lines(&["a dog", "b"]));
    let out = m.uppercase(&file);
    assert_eq!(out.report.op_type(), Operator::Uppercase);
    assert_eq!(out.rewritten.unwrap(), cli_lines(&["a CAT", "b"]));
    let out = m.lowercase(&cli_lines(&["a cat", "b"]));
    assert_eq!(out.report.op_type(), Operator::Lowercase);
    assert_eq!(out.rewritten.unwrap(), cli_lines(&["a cat", "b"]));
    let out = m.delete(&file);
    assert_eq!(out.report.op_type(), Operator::Delete);
    assert_eq!(out.rewritten.unwrap(), cli_lines(&["a ", "b"]));
    let out = m.new_line(&file);
    assert_eq!(out.report.op_type(), Operator::NewLine);
    assert_eq!(out.rewritten.unwrap(), cli_lines(&["a cat\n", "b"]));
}

#[test]
fn replace_by_name_needs_a_replacement() {
    let m = Maggedik::new(cli_args(&["prog", "a.txt", "f", "cat"])).unwrap();
    let err = m.replace(&cli_lines(&["cat"])).unwrap_err();
    assert!(matches!(err, ErrMessage::Syntax(_)));
}

#[test]
fn io_failure_carries_its_cause() {
    let err = ErrMessage::io("no such file".to_string());
    assert!(matches!(err, ErrMessage::Io(_)));
    assert_eq!(err.message(), "no such file");
}
