use claptrap::binding::EnvVar;
use claptrap::command::{Arg, ArgAction, Arity, Command, TypedValueParser, ValueCheck};
use claptrap::output::{CatCmd, ExitCode, Output, Var};
use claptrap::parse;

fn toks(s: &str) -> Vec<String> {
    s.split_whitespace().map(|t| t.to_string()).collect()
}

fn env_of(pairs: &[(&str, &str)]) -> Vec<EnvVar> {
    pairs
        .iter()
        .map(|(n, v)| EnvVar {
            name: n.to_string(),
            value: v.to_string(),
        })
        .collect()
}

fn larg(l: &str) -> Arg {
    let mut a = Arg::new();
    a.long = Some(l.to_string());
    a
}

fn sarg(c: char) -> Arg {
    let mut a = Arg::new();
    a.short = Some(c);
    a
}

fn mk(name: &str, args: Vec<(&str, Arg)>) -> Command {
    let mut c = Command::new(name.to_string());
    for (n, a) in args {
        c.arg(n.to_string(), a);
    }
    c
}

fn single(n: &str, v: &str) -> Var {
    Var::Single(n.to_string(), v.to_string())
}

fn many(n: &str, vs: &[&str]) -> Var {
    Var::Many(n.to_string(), vs.iter().map(|v| v.to_string()).collect())
}

fn err_out(msg: &str) -> Output {
    Output::Cat(CatCmd {
        data: format!("error: {}\n", msg),
        exit_code: ExitCode::Error,
    })
}

#[test]
fn test_short() {
    let app = mk("prog", vec![("config", sarg('c'))]);
    let out = parse(app, toks("-c file.toml"), vec![]);
    assert_eq!(out, Output::Variables(vec![single("config", "file.toml")]));
}

#[test]
fn test_short_help() {
    let mut app = Command::new("prog".to_string());
    app.disable_help_flag = true;
    let mut host = sarg('h');
    host.long = Some("host".to_string());
    app.arg("host".to_string(), host);
    let mut help = larg("help");
    help.action = ArgAction::Help;
    help.global = true;
    app.arg("help".to_string(), help);
    let out = parse(app, toks("-h wikipedia.org"), vec![]);
    assert_eq!(out, Output::Variables(vec![single("host", "wikipedia.org")]));
}

#[test]
fn test_long() {
    let app = mk("prog", vec![("cfg", larg("config"))]);
    let out = parse(app, toks("--config file.toml"), vec![]);
    assert_eq!(out, Output::Variables(vec![single("cfg", "file.toml")]));
}

#[test]
fn test_alias() {
    let mut a = larg("test");
    a.aliases = vec!["alias".to_string()];
    let app = mk("prog", vec![("test", a)]);
    let out = parse(app, toks("--alias cool"), vec![]);
    assert_eq!(out, Output::Variables(vec![single("test", "cool")]));
}

#[test]
fn test_short_alias() {
    let mut a = sarg('t');
    a.short_aliases = vec!['e'];
    let app = mk("prog", vec![("test", a)]);
    let out = parse(app, toks("-e cool"), vec![]);
    assert_eq!(out, Output::Variables(vec![single("test", "cool")]));
}

#[test]
fn test_aliases() {
    let mut a = larg("test");
    a.aliases = vec!["do-tests".to_string(), "tests".to_string()];
    a.action = ArgAction::SetTrue;
    let app = mk("prog", vec![("test", a)]);
    let out = parse(app, toks("--do-tests"), vec![]);
    assert_eq!(out, Output::Variables(vec![single("test", "true")]));
}

#[test]
fn test_short_aliases() {
    let mut a = sarg('t');
    a.short_aliases = vec!['e', 's'];
    a.action = ArgAction::SetTrue;
    let app = mk("prog", vec![("test", a)]);
    let out = parse(app, toks("-s"), vec![]);
    assert_eq!(out, Output::Variables(vec![single("test", "true")]));
}

#[test]
fn test_visible_alias() {
    let mut a = larg("test");
    a.visible_aliases = vec!["something-awesome".to_string()];
    let app = mk("prog", vec![("test", a)]);
    let out = parse(app, toks("--something-awesome coffee"), vec![]);
    assert_eq!(out, Output::Variables(vec![single("test", "coffee")]));
}

#[test]
fn test_visible_short_alias() {
    let mut a = sarg('x');
    a.visible_short_aliases = vec!['t'];
    let app = mk("prog", vec![("test", a)]);
    let out = parse(app, toks("-t coffee"), vec![]);
    assert_eq!(out, Output::Variables(vec![single("test", "coffee")]));
}

#[test]
fn test_visible_aliases() {
    let mut a = larg("test");
    a.visible_aliases = vec!["awesome".to_string(), "niche".to_string()];
    a.action = ArgAction::SetTrue;
    let app = mk("prog", vec![("test", a)]);
    let out = parse(app, toks("--awesome"), vec![]);
    assert_eq!(out, Output::Variables(vec![single("test", "true")]));
}

#[test]
fn test_visible_short_aliases() {
    let mut a = sarg('t');
    a.visible_short_aliases = vec!['e', 's'];
    a.action = ArgAction::SetTrue;
    let app = mk("prog", vec![("test", a)]);
    let out = parse(app, toks("-s"), vec![]);
    assert_eq!(out, Output::Variables(vec![single("test", "true")]));
}

#[test]
fn test_index() {
    let mut mode = Arg::new();
    mode.index = Some(1);
    let mut debug = larg("debug");
    debug.action = ArgAction::SetTrue;
    let app = mk("prog", vec![("mode", mode), ("debug", debug)]);
    let out = parse(app, toks("--debug fast"), vec![]);
    assert_eq!(
        out,
        Output::Variables(vec![single("mode", "fast"), single("debug", "true")])
    );
}

#[test]
fn test_trailing_var_arg() {
    let mut a = Arg::new();
    a.trailing_var_arg = true;
    a.arity = Arity::AtLeast(1);
    let app = mk("prog", vec![("cmd", a)]);
    let out = parse(app, toks("arg1 -r val1"), vec![]);
    assert_eq!(
        out,
        Output::Variables(vec![many("cmd", &["arg1", "-r", "val1"])])
    );
}

#[test]
fn test_last() {
    let mut third = Arg::new();
    third.last = true;
    let app = mk(
        "prog",
        vec![("first", Arg::new()), ("second", Arg::new()), ("third", third)],
    );
    let out1 = parse(app.clone(), toks("one -- three"), vec![]);
    assert_eq!(
        out1,
        Output::Variables(vec![single("first", "one"), single("third", "three")])
    );
    let out2 = parse(app, toks("one two three"), vec![]);
    assert_eq!(out2, err_out("unexpected argument 'three'"));
}

#[test]
fn test_required() {
    let mut a = larg("config");
    a.required = true;
    let app = mk("prog", vec![("cfg", a)]);
    let out1 = parse(app.clone(), toks("--config file.conf"), vec![]);
    assert_eq!(out1, Output::Variables(vec![single("cfg", "file.conf")]));
    let out2 = parse(app, vec![], vec![]);
    assert_eq!(
        out2,
        err_out("the following required argument was not provided: --config")
    );
}

#[test]
fn test_requires() {
    let mut a = larg("config");
    a.requires = Some("input".to_string());
    let app = mk("prog", vec![("cfg", a), ("input", Arg::new())]);
    let out1 = parse(app.clone(), vec![], vec![]);
    assert_eq!(out1, Output::Variables(vec![]));
    let out2 = parse(app, toks("--config file.conf"), vec![]);
    assert_eq!(
        out2,
        err_out("the argument '--config' requires 'input' but it was not provided")
    );
}

#[test]
fn test_exclusive() {
    let mut ex = larg("exclusive");
    ex.exclusive = true;
    let app = mk(
        "prog",
        vec![("exclusive", ex), ("debug", larg("debug")), ("input", Arg::new())],
    );
    let out = parse(app, toks("--exclusive file.conf file.txt"), vec![]);
    assert_eq!(
        out,
        err_out(
            "the argument '--exclusive' cannot be used with one or more of the other specified arguments"
        )
    );
}

#[test]
fn test_action_set() {
    let app = mk("prog", vec![("flag", larg("flag"))]);
    let out = parse(app, toks("--flag value"), vec![]);
    assert_eq!(out, Output::Variables(vec![single("flag", "value")]));
}

#[test]
fn it_fails_when_action_set_twice() {
    let app = mk("prog", vec![("flag", larg("flag"))]);
    let out = parse(app, toks("--flag value --flag value"), vec![]);
    assert_eq!(
        out,
        err_out("the argument '--flag' cannot be used multiple times")
    );
}

#[test]
fn test_action_append() {
    let mut a = larg("flag");
    a.action = ArgAction::Append;
    let app = mk("prog", vec![("flag", a)]);
    let out = parse(app, toks("--flag value1 --flag value2"), vec![]);
    assert_eq!(
        out,
        Output::Variables(vec![many("flag", &["value1", "value2"])])
    );
}

#[test]
fn test_action_set_true() {
    let mut a = larg("flag");
    a.action = ArgAction::SetTrue;
    let app = mk("prog", vec![("flag", a)]);
    let out = parse(app, toks("--flag"), vec![]);
    assert_eq!(out, Output::Variables(vec![single("flag", "true")]));
}

#[test]
fn it_fails_when_action_set_true_twice() {
    let mut a = larg("flag");
    a.action = ArgAction::SetTrue;
    let app = mk("prog", vec![("flag", a)]);
    let out = parse(app, toks("--flag --flag"), vec![]);
    assert_eq!(
        out,
        err_out("the argument '--flag' cannot be used multiple times")
    );
}

#[test]
fn test_action_set_false() {
    let mut a = larg("flag");
    a.action = ArgAction::SetFalse;
    let app = mk("prog", vec![("flag", a)]);
    let out = parse(app, toks("--flag"), vec![]);
    assert_eq!(out, Output::Variables(vec![single("flag", "false")]));
}

#[test]
fn it_fails_when_action_set_false_twice() {
    let mut a = larg("flag");
    a.action = ArgAction::SetFalse;
    let app = mk("prog", vec![("flag", a)]);
    let out = parse(app, toks("--flag --flag"), vec![]);
    assert_eq!(
        out,
        err_out("the argument '--flag' cannot be used multiple times")
    );
}

#[test]
fn test_action_count() {
    let mut a = larg("flag");
    a.action = ArgAction::Count;
    let app = mk("prog", vec![("flag", a)]);
    let out = parse(app, toks("--flag --flag"), vec![]);
    assert_eq!(out, Output::Variables(vec![single("flag", "2")]));
}

#[test]
fn test_action_help() {
    let mut a = larg("flag");
    a.action = ArgAction::Help;
    let app = mk("prog", vec![("flag", a)]);
    let out = parse(app, toks("-h"), vec![]);
    assert_eq!(
        out,
        Output::Cat(CatCmd {
            data: "Usage: prog [OPTIONS]\n\nOptions:\n      --flag\n  -h, --help  Print help\n"
                .to_string(),
            exit_code: ExitCode::Success,
        })
    );
}

#[test]
fn test_action_help_short() {
    let mut a = larg("flag");
    a.action = ArgAction::HelpShort;
    let app = mk("prog", vec![("flag", a)]);
    let out = parse(app, toks("--flag"), vec![]);
    match out {
        Output::Cat(c) => {
            assert_eq!(c.exit_code, ExitCode::Success);
            assert!(c.data.starts_with("Usage: prog [OPTIONS]\n"));
        }
        other => panic!("expected a help display, got {:?}", other),
    }
}

#[test]
fn test_action_help_long() {
    let mut a = larg("flag");
    a.action = ArgAction::HelpLong;
    let app = mk("prog", vec![("flag", a)]);
    let out = parse(app, toks("--flag"), vec![]);
    match out {
        Output::Cat(c) => {
            assert_eq!(c.exit_code, ExitCode::Success);
            assert!(c.data.starts_with("Usage: prog [OPTIONS]\n"));
        }
        other => panic!("expected a help display, got {:?}", other),
    }
}

#[test]
fn test_action_version() {
    let mut app = Command::new("prog".to_string());
    app.version = Some("1.0".to_string());
    let mut a = larg("flag");
    a.action = ArgAction::Version;
    app.arg("flag".to_string(), a);
    let out = parse(app, toks("--version"), vec![]);
    assert_eq!(
        out,
        Output::Cat(CatCmd {
            data: "prog 1.0\n".to_string(),
            exit_code: ExitCode::Success,
        })
    );
}

#[test]
fn test_value_parser() {
    let mut a = larg("color");
    a.value_check = ValueCheck::OneOf(vec![
        "always".to_string(),
        "auto".to_string(),
        "never".to_string(),
    ]);
    a.default_values = vec!["auto".to_string()];
    let app = mk("raw", vec![("color", a)]);
    let out = parse(app, toks("--color auto"), vec![]);
    assert_eq!(out, Output::Variables(vec![single("color", "auto")]));
}

#[test]
fn it_rejects_a_value_outside_the_allowed_set() {
    let mut a = larg("color");
    a.value_check = ValueCheck::OneOf(vec!["always".to_string(), "never".to_string()]);
    let app = mk("prog", vec![("color", a)]);
    let out = parse(app, toks("--color sometimes"), vec![]);
    assert_eq!(out, err_out("invalid value 'sometimes' for '--color'"));
}

#[test]
fn test_num_args() {
    let mut a = larg("mode");
    a.arity = Arity::Exact(1);
    let app = mk("prog", vec![("mode", a)]);
    let out = parse(app, toks("--mode fast"), vec![]);
    assert_eq!(out, Output::Variables(vec![single("mode", "fast")]));
}

#[test]
fn test_num_args_default_missing_value() {
    let mut a = larg("mode");
    a.arity = Arity::Between(0, 1);
    a.default_missing_values = vec!["slow".to_string()];
    a.default_values = vec!["plaid".to_string()];
    let app = mk("prog", vec![("mode", a)]);
    let out1 = parse(app.clone(), toks("--mode fast"), vec![]);
    assert_eq!(out1, Output::Variables(vec![single("mode", "fast")]));
    let out2 = parse(app.clone(), toks("--mode"), vec![]);
    assert_eq!(out2, Output::Variables(vec![single("mode", "slow")]));
    let out3 = parse(app, vec![], vec![]);
    assert_eq!(out3, Output::Variables(vec![single("mode", "plaid")]));
}

#[test]
fn test_num_args_tuples() {
    let mut a = sarg('F');
    a.arity = Arity::Exact(2);
    let app = mk("prog", vec![("file", a)]);
    let out1 = parse(app.clone(), toks("-F in-file out-file"), vec![]);
    assert_eq!(
        out1,
        Output::Variables(vec![many("file", &["in-file", "out-file"])])
    );
    let out2 = parse(app, toks("-F file1"), vec![]);
    assert_eq!(out2, err_out("too few values for '-F'"));
}

#[test]
fn test_num_args_multi_positional() {
    let mut f = sarg('F');
    f.arity = Arity::AtLeast(0);
    let app = mk("prog", vec![("file", f), ("word", Arg::new())]);
    let out1 = parse(app.clone(), toks("-F file1 file2 file3 word"), vec![]);
    assert_eq!(
        out1,
        Output::Variables(vec![many("file", &["file1", "file2", "file3", "word"])])
    );
    let out2 = parse(app, toks("word -F file1 file2 file3"), vec![]);
    assert_eq!(
        out2,
        Output::Variables(vec![
            many("file", &["file1", "file2", "file3"]),
            single("word", "word"),
        ])
    );
}

#[test]
fn test_num_args_multi_positional_solution() {
    let mut f = sarg('F');
    f.action = ArgAction::Append;
    let app = mk("prog", vec![("file", f), ("word", Arg::new())]);
    let out = parse(app, toks("-F file1 -F file2 -F file3 word"), vec![]);
    assert_eq!(
        out,
        Output::Variables(vec![
            many("file", &["file1", "file2", "file3"]),
            single("word", "word"),
        ])
    );
}

#[test]
fn test_ignore_case() {
    let mut a = larg("option");
    a.ignore_case = true;
    a.value_check = ValueCheck::OneOf(vec!["test123".to_string()]);
    let app = mk("prog", vec![("option", a)]);
    let out = parse(app, toks("--option TeSt123"), vec![]);
    assert_eq!(out, Output::Variables(vec![single("option", "TeSt123")]));
}

#[test]
fn test_ignore_case_multi() {
    let mut a = larg("option");
    a.short = Some('o');
    a.ignore_case = true;
    a.arity = Arity::AtLeast(1);
    a.value_check = ValueCheck::OneOf(vec!["test123".to_string(), "test321".to_string()]);
    let app = mk("prog", vec![("option", a)]);
    let out = parse(app, toks("--option TeSt123 teST123 tESt321"), vec![]);
    assert_eq!(
        out,
        Output::Variables(vec![many("option", &["TeSt123", "teST123", "tESt321"])])
    );
}

#[test]
fn test_allow_hyphen_values() {
    let mut a = larg("pattern");
    a.allow_hyphen_values = true;
    let app = mk("prog", vec![("pat", a)]);
    let out = parse(app, toks("--pattern -file"), vec![]);
    assert_eq!(out, Output::Variables(vec![single("pat", "-file")]));
}

#[test]
fn it_fails_when_not_allow_hyphen_values() {
    let app = mk("prog", vec![("pat", larg("pattern"))]);
    let out = parse(app, toks("--pattern -file"), vec![]);
    assert_eq!(
        out,
        err_out("a value is required for '--pattern' but none was supplied")
    );
}

#[test]
fn test_allow_negative_numbers() {
    let mut a = Arg::new();
    a.allow_negative_numbers = true;
    let app = mk("prog", vec![("num", a)]);
    let out = parse(app, toks("-20"), vec![]);
    assert_eq!(out, Output::Variables(vec![single("num", "-20")]));
}

#[test]
fn test_require_equals() {
    let mut a = larg("config");
    a.require_equals = true;
    let app = mk("prog", vec![("cfg", a)]);
    let out1 = parse(app.clone(), toks("--config=file.conf"), vec![]);
    assert_eq!(out1, Output::Variables(vec![single("cfg", "file.conf")]));
    let out2 = parse(app, toks("--config file.conf"), vec![]);
    assert_eq!(
        out2,
        err_out("equal sign is needed when assigning values to '--config'")
    );
}

#[test]
fn test_value_delimiter() {
    let mut a = larg("config");
    a.short = Some('c');
    a.value_delimiter = Some(',');
    let app = mk("prog", vec![("config", a)]);
    let out = parse(app, toks("--config=val1,val2,val3"), vec![]);
    assert_eq!(
        out,
        Output::Variables(vec![many("config", &["val1", "val2", "val3"])])
    );
}

#[test]
fn test_value_terminator() {
    let mut cmds = Arg::new();
    cmds.arity = Arity::AtLeast(0);
    cmds.allow_hyphen_values = true;
    cmds.value_terminator = Some(";".to_string());
    let app = mk("prog", vec![("cmds", cmds), ("location", Arg::new())]);
    let out = parse(app, toks("find type f -name special ; /home/clap"), vec![]);
    assert_eq!(
        out,
        Output::Variables(vec![
            many("cmds", &["find", "type", "f", "-name", "special"]),
            single("location", "/home/clap"),
        ])
    );
}

#[test]
fn test_default_value() {
    let mut a = larg("myopt");
    a.default_values = vec!["myval".to_string()];
    let app = mk("prog", vec![("opt", a)]);
    let out1 = parse(app.clone(), vec![], vec![]);
    assert_eq!(out1, Output::Variables(vec![single("opt", "myval")]));
    let out2 = parse(app, toks("--myopt=non_default"), vec![]);
    assert_eq!(out2, Output::Variables(vec![single("opt", "non_default")]));
}

#[test]
fn test_default_values() {
    let mut a = larg("myopt");
    a.arity = Arity::Exact(2);
    a.default_values = vec!["myval1".to_string(), "myval2".to_string()];
    let app = mk("prog", vec![("opt", a)]);
    let out1 = parse(app.clone(), vec![], vec![]);
    assert_eq!(
        out1,
        Output::Variables(vec![many("opt", &["myval1", "myval2"])])
    );
    let out2 = parse(app, toks("--myopt non_default another_value"), vec![]);
    assert_eq!(
        out2,
        Output::Variables(vec![many("opt", &["non_default", "another_value"])])
    );
}

#[test]
fn test_default_missing_value() {
    let mut a = larg("color");
    a.value_check = ValueCheck::OneOf(vec![
        "always".to_string(),
        "auto".to_string(),
        "never".to_string(),
    ]);
    a.default_values = vec!["auto".to_string()];
    a.arity = Arity::Between(0, 1);
    a.require_equals = true;
    a.default_missing_values = vec!["always".to_string()];
    let app = mk("prog", vec![("color", a)]);
    let out1 = parse(app.clone(), vec![], vec![]);
    assert_eq!(out1, Output::Variables(vec![single("color", "auto")]));
    let out2 = parse(app.clone(), toks("--color=never"), vec![]);
    assert_eq!(out2, Output::Variables(vec![single("color", "never")]));
    let out3 = parse(app, toks("--color"), vec![]);
    assert_eq!(out3, Output::Variables(vec![single("color", "always")]));
}

#[test]
fn test_default_missing_value_bool_literal() {
    let mut a = larg("create");
    a.arity = Arity::Between(0, 1);
    a.require_equals = true;
    a.default_missing_values = vec!["true".to_string()];
    let app = mk("prog", vec![("create", a)]);
    let out1 = parse(app.clone(), vec![], vec![]);
    assert_eq!(out1, Output::Variables(vec![]));
    let out2 = parse(app.clone(), toks("--create=false"), vec![]);
    assert_eq!(out2, Output::Variables(vec![single("create", "false")]));
    let out3 = parse(app, toks("--create"), vec![]);
    assert_eq!(out3, Output::Variables(vec![single("create", "true")]));
}

#[test]
fn test_env() {
    let mut a = larg("flag");
    a.env = Some("MY_FLAG".to_string());
    let app = mk("prog", vec![("flag", a)]);
    let out = parse(app, vec![], env_of(&[("MY_FLAG", "env")]));
    assert_eq!(out, Output::Variables(vec![single("flag", "env")]));
}

#[test]
fn test_env_falsey() {
    let mut t = larg("true_flag");
    t.env = Some("TRUE_FLAG".to_string());
    t.action = ArgAction::SetTrue;
    t.value_check = ValueCheck::Typed(TypedValueParser::Falsey);
    let mut f = larg("false_flag");
    f.env = Some("FALSE_FLAG".to_string());
    f.action = ArgAction::SetTrue;
    f.value_check = ValueCheck::Typed(TypedValueParser::Falsey);
    let mut ab = larg("absent_flag");
    ab.env = Some("ABSENT_FLAG".to_string());
    ab.action = ArgAction::SetTrue;
    ab.value_check = ValueCheck::Typed(TypedValueParser::Falsey);
    let app = mk(
        "prog",
        vec![("true_flag", t), ("false_flag", f), ("absent_flag", ab)],
    );
    let out = parse(
        app,
        vec![],
        env_of(&[("TRUE_FLAG", "true"), ("FALSE_FLAG", "0")]),
    );
    assert_eq!(
        out,
        Output::Variables(vec![
            single("true_flag", "true"),
            single("false_flag", "false"),
            single("absent_flag", "false"),
        ])
    );
}

#[test]
fn test_env_option() {
    let mut a = larg("flag");
    a.env = Some("MY_FLAG".to_string());
    let app = mk("prog", vec![("flag", a)]);
    let out = parse(app, toks("--flag opt"), env_of(&[("MY_FLAG", "env")]));
    assert_eq!(out, Output::Variables(vec![single("flag", "opt")]));
}

#[test]
fn test_env_default_value() {
    let mut a = larg("flag");
    a.env = Some("MY_FLAG".to_string());
    a.default_values = vec!["default".to_string()];
    let app = mk("prog", vec![("flag", a)]);
    let out = parse(app, vec![], env_of(&[("MY_FLAG", "env")]));
    assert_eq!(out, Output::Variables(vec![single("flag", "env")]));
}

#[test]
fn test_env_multi() {
    let mut a = larg("flag");
    a.env = Some("MY_FLAG_MULTI".to_string());
    a.arity = Arity::AtLeast(1);
    a.value_delimiter = Some(',');
    let app = mk("prog", vec![("flag", a)]);
    let out = parse(app, vec![], env_of(&[("MY_FLAG_MULTI", "env1,env2")]));
    assert_eq!(out, Output::Variables(vec![many("flag", &["env1", "env2"])]));
}

#[test]
fn test_help() {
    let mut a = larg("config");
    a.help = Some("Some help text describing the --config arg".to_string());
    let app = mk("prog", vec![("cfg", a)]);
    let out = parse(app, toks("--help"), vec![]);
    assert_eq!(
        out,
        Output::Cat(CatCmd {
            data: "Usage: prog [OPTIONS]\n\nOptions:\n      --config <cfg>  Some help text describing the --config arg\n  -h, --help  Print help\n".to_string(),
            exit_code: ExitCode::Success,
        })
    );
}

#[test]
fn test_hide() {
    let mut a = larg("config");
    a.hide = true;
    let app = mk("prog", vec![("cfg", a)]);
    let out = parse(app, toks("--help"), vec![]);
    assert_eq!(
        out,
        Output::Cat(CatCmd {
            data: "Usage: prog [OPTIONS]\n\nOptions:\n  -h, --help  Print help\n".to_string(),
            exit_code: ExitCode::Success,
        })
    );
}

#[test]
fn test_value_name() {
    let mut a = larg("config");
    a.value_names = vec!["FILE".to_string()];
    let app = mk("prog", vec![("config", a)]);
    let out = parse(app, toks("--help"), vec![]);
    assert_eq!(
        out,
        Output::Cat(CatCmd {
            data: "Usage: prog [OPTIONS]\n\nOptions:\n      --config <FILE>\n  -h, --help  Print help\n".to_string(),
            exit_code: ExitCode::Success,
        })
    );
}

#[test]
fn test_value_names() {
    let mut a = larg("io-files");
    a.value_names = vec!["INFILE".to_string(), "OUTFILE".to_string()];
    let app = mk("prog", vec![("io", a)]);
    let out = parse(app, toks("--help"), vec![]);
    assert_eq!(
        out,
        Output::Cat(CatCmd {
            data: "Usage: prog [OPTIONS]\n\nOptions:\n      --io-files <INFILE> <OUTFILE>\n  -h, --help  Print help\n".to_string(),
            exit_code: ExitCode::Success,
        })
    );
}

#[test]
fn test_required_unless_present() {
    let mut input = Arg::new();
    input.required_unless_present = Some("dbg".to_string());
    let mut dbg = larg("debug");
    dbg.action = ArgAction::SetTrue;
    let app = mk("prog", vec![("input", input), ("dbg", dbg)]);
    let out1 = parse(app.clone(), toks("--debug"), vec![]);
    assert_eq!(out1, Output::Variables(vec![single("dbg", "true")]));
    let out2 = parse(app, vec![], vec![]);
    assert_eq!(
        out2,
        err_out("the following required argument was not provided: input")
    );
}

#[test]
fn test_required_unless_present_all() {
    let mut cfg = larg("config");
    cfg.required_unless_present_all = vec!["dbg".to_string(), "inp".to_string()];
    let mut dbg = larg("debug");
    dbg.action = ArgAction::SetTrue;
    let mut inp = sarg('i');
    let app = {
        inp.long = Some("input".to_string());
        mk("prog", vec![("cfg", cfg), ("dbg", dbg), ("inp", inp)])
    };
    let out1 = parse(app.clone(), toks("--debug -i file"), vec![]);
    assert_eq!(
        out1,
        Output::Variables(vec![single("dbg", "true"), single("inp", "file")])
    );
    let out2 = parse(app, toks("--debug"), vec![]);
    assert_eq!(
        out2,
        err_out("the following required argument was not provided: --config")
    );
}

#[test]
fn test_required_unless_present_any() {
    let mut cfg = larg("config");
    cfg.required_unless_present_any = vec!["dbg".to_string(), "inp".to_string()];
    let mut dbg = larg("debug");
    dbg.action = ArgAction::SetTrue;
    let mut inp = sarg('i');
    inp.long = Some("input".to_string());
    let app = mk("prog", vec![("cfg", cfg), ("dbg", dbg), ("inp", inp)]);
    let out1 = parse(app.clone(), toks("--debug"), vec![]);
    assert_eq!(out1, Output::Variables(vec![single("dbg", "true")]));
    let out2 = parse(app, vec![], vec![]);
    assert_eq!(
        out2,
        err_out("the following required argument was not provided: --config")
    );
}

#[test]
fn test_conflicts_with() {
    let mut cfg = larg("config");
    cfg.conflicts_with = vec!["debug".to_string()];
    let mut debug = larg("debug");
    debug.action = ArgAction::SetTrue;
    let app = mk("prog", vec![("cfg", cfg), ("debug", debug)]);
    let out = parse(app, toks("--debug --config file.conf"), vec![]);
    assert_eq!(
        out,
        err_out("the argument '--config' cannot be used with '--debug'")
    );
}

#[test]
fn test_conflicts_with_all() {
    let mut cfg = larg("config");
    cfg.conflicts_with = vec!["debug".to_string(), "input".to_string()];
    let mut debug = larg("debug");
    debug.action = ArgAction::SetTrue;
    let app = mk(
        "prog",
        vec![("cfg", cfg), ("debug", debug), ("input", Arg::new())],
    );
    let out = parse(app, toks("--config file.conf file.txt"), vec![]);
    assert_eq!(
        out,
        err_out("the argument '--config' cannot be used with 'input'")
    );
}

#[test]
fn test_overrides_with() {
    let mut flag = sarg('f');
    flag.long = Some("flag".to_string());
    flag.action = ArgAction::SetTrue;
    flag.help = Some("some flag".to_string());
    flag.conflicts_with = vec!["debug".to_string()];
    let mut debug = sarg('d');
    debug.long = Some("debug".to_string());
    debug.action = ArgAction::SetTrue;
    debug.help = Some("other flag".to_string());
    let mut color = sarg('c');
    color.long = Some("color".to_string());
    color.action = ArgAction::SetTrue;
    color.help = Some("third flag".to_string());
    color.overrides_with = vec!["flag".to_string()];
    let app = mk("prog", vec![("flag", flag), ("debug", debug), ("color", color)]);
    let out = parse(app, toks("-f -d -c"), vec![]);
    assert_eq!(
        out,
        Output::Variables(vec![
            single("flag", "true"),
            single("debug", "true"),
            single("color", "true"),
        ])
    );
}

#[test]
fn test_overrides_with_all() {
    let mut flag = sarg('f');
    flag.long = Some("flag".to_string());
    flag.action = ArgAction::SetTrue;
    flag.help = Some("some flag".to_string());
    flag.conflicts_with = vec!["color".to_string()];
    let mut debug = sarg('d');
    debug.long = Some("debug".to_string());
    debug.action = ArgAction::SetTrue;
    debug.help = Some("other flag".to_string());
    let mut color = sarg('c');
    color.long = Some("color".to_string());
    color.action = ArgAction::SetTrue;
    color.help = Some("third flag".to_string());
    color.overrides_with = vec!["flag".to_string(), "debug".to_string()];
    let app = mk("prog", vec![("flag", flag), ("debug", debug), ("color", color)]);
    let out = parse(app, toks("-f -d -c"), vec![]);
    assert_eq!(
        out,
        Output::Variables(vec![
            single("flag", "true"),
            single("debug", "true"),
            single("color", "true"),
        ])
    );
}

#[test]
fn it_keeps_unrelated_conflict_rules_when_overriding() {
    let mut x = larg("x");
    x.action = ArgAction::SetTrue;
    x.conflicts_with = vec!["y".to_string()];
    let mut y = larg("y");
    y.action = ArgAction::SetTrue;
    let mut z = larg("z");
    z.action = ArgAction::SetTrue;
    z.overrides_with = vec!["x".to_string()];
    let mut w = larg("w");
    w.action = ArgAction::SetTrue;
    w.conflicts_with = vec!["u".to_string()];
    let mut u = larg("u");
    u.action = ArgAction::SetTrue;
    let app = mk(
        "prog",
        vec![("x", x), ("y", y), ("z", z), ("w", w), ("u", u)],
    );
    let out = parse(app, toks("--x --y --z --w --u"), vec![]);
    assert_eq!(out, err_out("the argument '--w' cannot be used with '--u'"));
}
