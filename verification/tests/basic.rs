use claptrap::command::{Arg, Command};
use claptrap::output::{CatCmd, ExitCode, Output, Var};
use claptrap::parse;

fn toks(s: &str) -> Vec<String> {
    s.split_whitespace().map(|t| t.to_string()).collect()
}

fn myapp() -> Command {
    let mut app = Command::new("myapp".to_string());
    app.version = Some("0.1.0".to_string());
    app.about = Some("An example application".to_string());
    app.arg_required_else_help = true;
    let mut mode = Arg::new();
    mode.long = Some("mode".to_string());
    app.arg("mode".to_string(), mode);
    let mut protocol = Arg::new();
    protocol.short = Some('p');
    protocol.long = Some("protocol".to_string());
    app.arg("protocol".to_string(), protocol);
    let mut input = Arg::new();
    input.required = true;
    app.arg("input".to_string(), input);
    app
}

fn myapp_help() -> String {
    "An example application\n\nUsage: myapp [OPTIONS] <input>\n\nArguments:\n  <input>\n\nOptions:\n      --mode <mode>\n  -p, --protocol <protocol>\n  -h, --help  Print help\n  -V, --version  Print version\n".to_string()
}

#[test]
fn it_outputs_usage_and_exit_2_on_no_args() {
    let out = parse(myapp(), vec![], vec![]);
    assert_eq!(
        out,
        Output::Cat(CatCmd {
            data: myapp_help(),
            exit_code: ExitCode::Usage,
        })
    );
}

#[test]
fn it_outputs_usage_and_exit_0_on_short_help() {
    let out = parse(myapp(), toks("-h"), vec![]);
    assert_eq!(
        out,
        Output::Cat(CatCmd {
            data: myapp_help(),
            exit_code: ExitCode::Success,
        })
    );
}

#[test]
fn it_outputs_usage_and_exit_0_on_long_help() {
    let out = parse(myapp(), toks("--help"), vec![]);
    assert_eq!(
        out,
        Output::Cat(CatCmd {
            data: myapp_help(),
            exit_code: ExitCode::Success,
        })
    );
}

#[test]
fn it_outputs_version_and_exit_0_on_short_version() {
    let out = parse(myapp(), toks("-V"), vec![]);
    assert_eq!(
        out,
        Output::Cat(CatCmd {
            data: "myapp 0.1.0\n".to_string(),
            exit_code: ExitCode::Success,
        })
    );
}

#[test]
fn it_outputs_variables() {
    let out = parse(myapp(), toks("--mode stream -p udp file.txt"), vec![]);
    assert_eq!(
        out,
        Output::Variables(vec![
            Var::Single("mode".to_string(), "stream".to_string()),
            Var::Single("protocol".to_string(), "udp".to_string()),
            Var::Single("input".to_string(), "file.txt".to_string()),
        ])
    );
}

#[test]
fn it_outputs_error_and_exit_1_on_unexpected_arg() {
    let out = parse(myapp(), toks("--invalid"), vec![]);
    assert_eq!(
        out,
        Output::Cat(CatCmd {
            data: "error: unexpected argument '--invalid'\n".to_string(),
            exit_code: ExitCode::Error,
        })
    );
}
