use claptrap::command::{Arg, ArgAction, Arity, Command};
use claptrap::output::{CatCmd, ExitCode, Output, Var};
use claptrap::parse;

fn toks(s: &str) -> Vec<String> {
    s.split_whitespace().map(|t| t.to_string()).collect()
}

fn larg(l: &str) -> Arg {
    let mut a = Arg::new();
    a.long = Some(l.to_string());
    a
}

fn sarg(c: char) -> Arg {
    let mut a = Arg::new();
    a.short = Some(c);
    a
}

fn mk(name: &str, args: Vec<(&str, Arg)>) -> Command {
    let mut c = Command::new(name.to_string());
    for (n, a) in args {
        c.arg(n.to_string(), a);
    }
    c
}

fn single(n: &str, v: &str) -> Var {
    Var::Single(n.to_string(), v.to_string())
}

fn many(n: &str, vs: &[&str]) -> Var {
    Var::Many(n.to_string(), vs.iter().map(|v| v.to_string()).collect())
}

fn err_out(msg: &str) -> Output {
    Output::Cat(CatCmd {
        data: format!("error: {}\n", msg),
        exit_code: ExitCode::Error,
    })
}

#[test]
fn test_arg() {
    let app = mk("prog", vec![("cfg", larg("config"))]);
    let out = parse(app, toks("--help"), vec![]);
    assert_eq!(
        out,
        Output::Cat(CatCmd {
            data: "Usage: prog [OPTIONS]\n\nOptions:\n      --config <cfg>\n  -h, --help  Print help\n".to_string(),
            exit_code: ExitCode::Success,
        })
    );
}

#[test]
fn test_ignore_error() {
    let mut app = mk("prog", vec![("config", sarg('c'))]);
    app.ignore_errors = true;
    let out = parse(app, toks("-c file -f -x"), vec![]);
    assert_eq!(out, Output::Variables(vec![single("config", "file")]));
}

#[test]
fn test_args_override_self() {
    let mut app = mk("prog", vec![("foo", larg("foo"))]);
    app.args_override_self = true;
    let out = parse(app, toks("--foo value --foo value"), vec![]);
    assert_eq!(out, Output::Variables(vec![single("foo", "value")]));
}

#[test]
fn test_dont_delimit_trailing_values() {
    let mut rest = Arg::new();
    rest.arity = Arity::AtLeast(0);
    rest.value_delimiter = Some(',');
    let mut app = mk("prog", vec![("first", Arg::new()), ("rest", rest)]);
    app.dont_delimit_trailing_values = true;
    let out = parse(app, toks("one -- a,b"), vec![]);
    assert_eq!(
        out,
        Output::Variables(vec![single("first", "one"), many("rest", &["a,b"])])
    );
}

#[test]
fn it_delimits_trailing_values_by_default() {
    let mut rest = Arg::new();
    rest.arity = Arity::AtLeast(0);
    rest.value_delimiter = Some(',');
    let app = mk("prog", vec![("first", Arg::new()), ("rest", rest)]);
    let out = parse(app, toks("one -- a,b"), vec![]);
    assert_eq!(
        out,
        Output::Variables(vec![single("first", "one"), many("rest", &["a", "b"])])
    );
}

#[test]
fn test_diable_version_flag() {
    let mut app = mk("prog", vec![("cfg", larg("config"))]);
    app.version = Some("1.0".to_string());
    app.disable_version_flag = true;
    let out1 = parse(app.clone(), toks("--version"), vec![]);
    assert_eq!(out1, err_out("unexpected argument '--version'"));
    let out2 = parse(app, toks("-V"), vec![]);
    assert_eq!(out2, err_out("unexpected argument '-V'"));
}

#[test]
fn test_diable_help_flag() {
    let mut app = mk("prog", vec![("cfg", larg("config"))]);
    app.disable_help_flag = true;
    let out1 = parse(app.clone(), toks("--help"), vec![]);
    assert_eq!(out1, err_out("unexpected argument '--help'"));
    let out2 = parse(app, toks("-h"), vec![]);
    assert_eq!(out2, err_out("unexpected argument '-h'"));
}

#[test]
fn test_infer_long_args() {
    let mut t = larg("test");
    t.action = ArgAction::SetTrue;
    let mut app = mk("prog", vec![("test", t)]);
    app.infer_long_args = true;
    let out = parse(app, toks("--te"), vec![]);
    assert_eq!(out, Output::Variables(vec![single("test", "true")]));
}

#[test]
fn test_infer_long_args_ambiguous() {
    let mut t = larg("test");
    t.action = ArgAction::SetTrue;
    let mut temp = larg("temp");
    temp.action = ArgAction::SetTrue;
    let mut app = mk("prog", vec![("test", t), ("temp", temp)]);
    app.infer_long_args = true;
    let out = parse(app, toks("--te"), vec![]);
    assert_eq!(
        out,
        err_out("ambiguous argument '--te' matches more than one long option")
    );
}

#[test]
fn test_bin_name() {
    let mut app = mk("prog", vec![]);
    app.bin_name = Some("custom".to_string());
    let out = parse(app, toks("--help"), vec![]);
    assert_eq!(
        out,
        Output::Cat(CatCmd {
            data: "Usage: custom [OPTIONS]\n\nOptions:\n  -h, --help  Print help\n".to_string(),
            exit_code: ExitCode::Success,
        })
    );
}

#[test]
fn test_about() {
    let mut app = mk("prog", vec![]);
    app.about = Some("Does great things".to_string());
    let out = parse(app, toks("-h"), vec![]);
    assert_eq!(
        out,
        Output::Cat(CatCmd {
            data: "Does great things\n\nUsage: prog [OPTIONS]\n\nOptions:\n  -h, --help  Print help\n".to_string(),
            exit_code: ExitCode::Success,
        })
    );
}

#[test]
fn test_version() {
    let mut app = mk("prog", vec![]);
    app.version = Some("1.2.3".to_string());
    let out = parse(app, toks("-V"), vec![]);
    assert_eq!(
        out,
        Output::Cat(CatCmd {
            data: "prog 1.2.3\n".to_string(),
            exit_code: ExitCode::Success,
        })
    );
}

#[test]
fn test_long_version() {
    let mut app = mk("prog", vec![]);
    app.long_version = Some("1.2.3 (build abcdef)".to_string());
    let out = parse(app, toks("--version"), vec![]);
    assert_eq!(
        out,
        Output::Cat(CatCmd {
            data: "prog 1.2.3 (build abcdef)\n".to_string(),
            exit_code: ExitCode::Success,
        })
    );
}

#[test]
fn test_override_usage() {
    let mut app = mk("prog", vec![]);
    app.override_usage = Some("myapp [WHATEVER]".to_string());
    let out = parse(app, toks("--help"), vec![]);
    assert_eq!(
        out,
        Output::Cat(CatCmd {
            data: "Usage: myapp [WHATEVER]\n\nOptions:\n  -h, --help  Print help\n".to_string(),
            exit_code: ExitCode::Success,
        })
    );
}

#[test]
fn test_override_help() {
    let mut app = mk("prog", vec![]);
    app.override_help = Some("TOTALLY CUSTOM".to_string());
    let out = parse(app, toks("--help"), vec![]);
    assert_eq!(
        out,
        Output::Cat(CatCmd {
            data: "TOTALLY CUSTOM\n".to_string(),
            exit_code: ExitCode::Success,
        })
    );
}

#[test]
fn test_allow_missing_positional() {
    let mut app = mk("prog", vec![("foo", Arg::new()), ("bar", Arg::new())]);
    app.allow_missing_positional = true;
    let out = parse(app, toks("other"), vec![]);
    assert_eq!(out, Output::Variables(vec![single("bar", "other")]));
}

#[test]
fn test_allow_missing_positional_with_default() {
    let mut foo = Arg::new();
    foo.default_values = vec!["def".to_string()];
    let mut app = mk("prog", vec![("foo", foo), ("bar", Arg::new())]);
    app.allow_missing_positional = true;
    let out = parse(app, toks("other"), vec![]);
    assert_eq!(
        out,
        Output::Variables(vec![single("foo", "def"), single("bar", "other")])
    );
}

#[test]
fn test_allow_missing_positional_style_2() {
    let mut baz = Arg::new();
    baz.arity = Arity::AtLeast(1);
    let mut app = mk(
        "prog",
        vec![("foo", Arg::new()), ("bar", Arg::new()), ("baz", baz)],
    );
    app.allow_missing_positional = true;
    let out1 = parse(app.clone(), toks("foo bar baz1 baz2 baz3"), vec![]);
    assert_eq!(
        out1,
        Output::Variables(vec![
            single("foo", "foo"),
            single("bar", "bar"),
            many("baz", &["baz1", "baz2", "baz3"]),
        ])
    );
    let out2 = parse(app, toks("-- baz1 baz2 baz3"), vec![]);
    assert_eq!(
        out2,
        Output::Variables(vec![many("baz", &["baz1", "baz2", "baz3"])])
    );
}

#[test]
fn it_reports_a_defective_description() {
    let mut bad = Arg::new();
    bad.arity = Arity::Between(3, 1);
    let app = mk("prog", vec![("x", bad)]);
    let out = parse(app, vec![], vec![]);
    assert_eq!(
        out,
        Output::Cat(CatCmd {
            data: "error: invalid command specification\n".to_string(),
            exit_code: ExitCode::Panic,
        })
    );
}

#[test]
fn it_reports_duplicate_identifiers_as_a_defect() {
    let app = mk("prog", vec![("x", larg("one")), ("x", larg("two"))]);
    let out = parse(app, vec![], vec![]);
    assert_eq!(
        out,
        Output::Cat(CatCmd {
            data: "error: invalid command specification\n".to_string(),
            exit_code: ExitCode::Panic,
        })
    );
}

#[test]
fn it_rejects_an_explicit_arity_on_a_flag() {
    let mut bad = larg("verbose");
    bad.action = ArgAction::SetTrue;
    bad.arity = Arity::Exact(1);
    let app = mk("prog", vec![("verbose", bad)]);
    let out = parse(app, vec![], vec![]);
    assert_eq!(
        out,
        Output::Cat(CatCmd {
            data: "error: invalid command specification\n".to_string(),
            exit_code: ExitCode::Panic,
        })
    );
}
