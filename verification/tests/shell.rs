use claptrap::command::{Arg, ArgAction, Command};
use claptrap::output::{CatCmd, ExitCode, Output, Var};
use claptrap::{panic_output, parse};

fn toks(s: &str) -> Vec<String> {
    s.split_whitespace().map(|t| t.to_string()).collect()
}

#[test]
fn it_renders_a_single_variable_line() {
    let out = Output::Variables(vec![Var::Single(
        "config".to_string(),
        "file.toml".to_string(),
    )]);
    assert_eq!(out.render(), "claptrap_config=file.toml");
}

#[test]
fn it_renders_many_valued_variables_in_parentheses() {
    let out = Output::Variables(vec![
        Var::Single("mode".to_string(), "fast".to_string()),
        Var::Many(
            "files".to_string(),
            vec!["a".to_string(), "b".to_string(), "c".to_string()],
        ),
    ]);
    assert_eq!(out.render(), "claptrap_mode=fast\nclaptrap_files=(a b c)");
}

#[test]
fn it_renders_no_text_for_an_empty_variable_list() {
    let out = Output::Variables(vec![]);
    assert_eq!(out.render(), "");
}

#[test]
fn it_renders_a_fenced_block_with_an_exit_directive() {
    let out = Output::Cat(CatCmd {
        data: "some text\nwith 'quotes' and \\backslashes\\\n".to_string(),
        exit_code: ExitCode::Error,
    });
    assert_eq!(
        out.render(),
        "command cat <<'EOF'\nsome text\nwith 'quotes' and \\backslashes\\\nEOF\nexit 1"
    );
}

#[test]
fn it_maps_each_classification_to_its_exit_code() {
    assert_eq!(ExitCode::Success.code(), 0);
    assert_eq!(ExitCode::Error.code(), 1);
    assert_eq!(ExitCode::Usage.code(), 2);
    assert_eq!(ExitCode::Panic.code(), 3);
}

#[test]
fn it_intercepts_a_fault_with_its_message() {
    let out = panic_output(Some("boom".to_string()));
    assert_eq!(
        out,
        Output::Cat(CatCmd {
            data: "boom\n".to_string(),
            exit_code: ExitCode::Panic,
        })
    );
    assert_eq!(out.render(), "command cat <<'EOF'\nboom\nEOF\nexit 3");
}

#[test]
fn it_intercepts_a_fault_without_a_message() {
    let out = panic_output(None);
    assert_eq!(
        out,
        Output::Cat(CatCmd {
            data: "An unexpected panic occurred\n".to_string(),
            exit_code: ExitCode::Panic,
        })
    );
}

#[test]
fn it_renders_large_counts_in_decimal() {
    let mut v = Arg::new();
    v.short = Some('v');
    v.action = ArgAction::Count;
    let mut app = Command::new("prog".to_string());
    app.arg("verbose".to_string(), v);
    let out = parse(app, toks("-v -v -v -v -v -v -v -v -v -v -v -v"), vec![]);
    assert_eq!(
        out,
        Output::Variables(vec![Var::Single("verbose".to_string(), "12".to_string())])
    );
    assert_eq!(out.render(), "claptrap_verbose=12");
}

#[test]
fn it_keeps_cli_over_env_over_default() {
    let mk = || {
        let mut a = Arg::new();
        a.long = Some("opt".to_string());
        a.env = Some("OPT_VAR".to_string());
        a.default_values = vec!["fallback".to_string()];
        let mut app = Command::new("prog".to_string());
        app.arg("opt".to_string(), a);
        app
    };
    let env = vec![claptrap::binding::EnvVar {
        name: "OPT_VAR".to_string(),
        value: "from-env".to_string(),
    }];
    let cli = parse(mk(), toks("--opt given"), env.clone());
    assert_eq!(
        cli,
        Output::Variables(vec![Var::Single("opt".to_string(), "given".to_string())])
    );
    let envd = parse(mk(), vec![], env);
    assert_eq!(
        envd,
        Output::Variables(vec![Var::Single(
            "opt".to_string(),
            "from-env".to_string()
        )])
    );
    let defd = parse(mk(), vec![], vec![]);
    assert_eq!(
        defd,
        Output::Variables(vec![Var::Single(
            "opt".to_string(),
            "fallback".to_string()
        )])
    );
}

#[test]
fn it_only_relaxes_requirements_when_presence_grows() {
    let mk = || {
        let mut cfg = Arg::new();
        cfg.long = Some("config".to_string());
        cfg.required_unless_present_any = vec!["dbg".to_string(), "inp".to_string()];
        let mut dbg = Arg::new();
        dbg.long = Some("debug".to_string());
        dbg.action = ArgAction::SetTrue;
        let mut inp = Arg::new();
        inp.long = Some("input".to_string());
        inp.action = ArgAction::SetTrue;
        let mut app = Command::new("prog".to_string());
        app.arg("cfg".to_string(), cfg);
        app.arg("dbg".to_string(), dbg);
        app.arg("inp".to_string(), inp);
        app
    };
    let none = parse(mk(), vec![], vec![]);
    assert_eq!(
        none,
        Output::Cat(CatCmd {
            data: "error: the following required argument was not provided: --config\n"
                .to_string(),
            exit_code: ExitCode::Error,
        })
    );
    let one = parse(mk(), toks("--debug"), vec![]);
    assert!(matches!(one, Output::Variables(_)));
    let both = parse(mk(), toks("--debug --input"), vec![]);
    assert!(matches!(both, Output::Variables(_)));
}

#[test]
fn it_rejects_a_value_handed_to_a_plain_flag() {
    let mut a = Arg::new();
    a.long = Some("flag".to_string());
    a.action = ArgAction::SetTrue;
    let mut app = Command::new("prog".to_string());
    app.arg("flag".to_string(), a);
    let out = parse(app, toks("--flag=x"), vec![]);
    assert_eq!(
        out,
        Output::Cat(CatCmd {
            data: "error: unexpected value for '--flag'\n".to_string(),
            exit_code: ExitCode::Error,
        })
    );
}

#[test]
fn it_discards_the_bare_separator() {
    let mut app = Command::new("prog".to_string());
    app.arg("word".to_string(), Arg::new());
    let out = parse(app, toks("-- hello"), vec![]);
    assert_eq!(
        out,
        Output::Variables(vec![Var::Single("word".to_string(), "hello".to_string())])
    );
}

#[test]
fn it_treats_a_lone_hyphen_as_a_value() {
    let mut app = Command::new("prog".to_string());
    app.arg("word".to_string(), Arg::new());
    let out = parse(app, toks("-"), vec![]);
    assert_eq!(
        out,
        Output::Variables(vec![Var::Single("word".to_string(), "-".to_string())])
    );
}

#[test]
fn it_takes_an_attached_value_after_a_short_flag() {
    let mut a = Arg::new();
    a.short = Some('c');
    let mut app = Command::new("prog".to_string());
    app.arg("config".to_string(), a);
    let out = parse(app, toks("-cfile.toml"), vec![]);
    assert_eq!(
        out,
        Output::Variables(vec![Var::Single(
            "config".to_string(),
            "file.toml".to_string()
        )])
    );
}

#[test]
fn it_takes_an_equals_value_after_a_short_flag() {
    let mut a = Arg::new();
    a.short = Some('c');
    let mut app = Command::new("prog".to_string());
    app.arg("config".to_string(), a);
    let out = parse(app, toks("-c=file.toml"), vec![]);
    assert_eq!(
        out,
        Output::Variables(vec![Var::Single(
            "config".to_string(),
            "file.toml".to_string()
        )])
    );
}

#[test]
fn it_binds_a_cluster_of_short_flags() {
    let mk_flag = || {
        let mut a = Arg::new();
        a.action = ArgAction::SetTrue;
        a
    };
    let mut app = Command::new("prog".to_string());
    let mut x = mk_flag();
    x.short = Some('x');
    app.arg("ex".to_string(), x);
    let mut y = mk_flag();
    y.short = Some('y');
    app.arg("why".to_string(), y);
    let out = parse(app, toks("-xy"), vec![]);
    assert_eq!(
        out,
        Output::Variables(vec![
            Var::Single("ex".to_string(), "true".to_string()),
            Var::Single("why".to_string(), "true".to_string()),
        ])
    );
}

#[test]
fn it_rejects_boolish_nonsense() {
    let mut a = Arg::new();
    a.long = Some("create".to_string());
    a.value_check = claptrap::command::ValueCheck::Typed(
        claptrap::command::TypedValueParser::Boolish,
    );
    let mut app = Command::new("prog".to_string());
    app.arg("create".to_string(), a);
    let out1 = parse(app.clone(), toks("--create YES"), vec![]);
    assert_eq!(
        out1,
        Output::Variables(vec![Var::Single(
            "create".to_string(),
            "true".to_string()
        )])
    );
    let out2 = parse(app, toks("--create maybe"), vec![]);
    assert_eq!(
        out2,
        Output::Cat(CatCmd {
            data: "error: invalid value 'maybe' for '--create'\n".to_string(),
            exit_code: ExitCode::Error,
        })
    );
}
