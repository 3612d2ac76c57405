//! Turns a declarative description of a command-line interface into an
//! argument parser, runs it once against a list of input tokens, and produces
//! output that is always safe to feed into a shell `eval`: either a set of
//! named variable assignments, or a verbatim text block (help, version or
//! error text) paired with an explicit exit code.
//!
//! The engine is a pure function from (command description, tokens,
//! environment snapshot) to output: it performs no I/O of its own.
use vstd::prelude::*;

pub mod binding;
pub mod command;
pub mod constraints;
pub mod diag;
pub mod extract;
pub mod laws;
pub mod matcher;
pub mod output;
pub mod positional;
pub mod render;
pub mod resolve;
pub mod strutil;
pub mod values;

use crate::binding::{env_view, EnvVar, EnvVarModel};
use crate::command::{Command, CommandModel};
use crate::diag::{Diag, DiagModel};
use crate::output::{CatCmd, CatCmdModel, ExitCode, Output, OutputModel};

verus! {

/// The text block reported for a command description that fails its own
/// well-formedness check: a specification defect, mapped to the internal
/// fault exit code.
pub open spec fn spec_defect_text() -> Seq<char> {
    "error: invalid command specification\n"@
}

/// The text block of a usage error.
pub open spec fn spec_error_text(msg: Seq<char>) -> Seq<char> {
    "error: "@ + msg + "\n"@
}

fn error_text(msg: &str) -> (r: String)
    ensures
        r@ == spec_error_text(msg@),
{
    let mut s = String::new();
    s.append("error: ");
    s.append(msg);
    s.append("\n");
    proof {
        assert(s@ =~= spec_error_text(msg@));
    }
    s
}

/// The output of a short-circuit outcome: help and version displays leave
/// with success, a usage display for missing input with its own code, and
/// a usage error with the generic error code.
pub open spec fn spec_diag_output(cmd: CommandModel, d: DiagModel) -> OutputModel {
    match d {
        DiagModel::Help(long) => OutputModel::Cat(
            CatCmdModel { data: render::spec_help_text(cmd, long), exit_code: ExitCode::Success },
        ),
        DiagModel::Version(long) => OutputModel::Cat(
            CatCmdModel {
                data: render::spec_version_text(cmd, long),
                exit_code: ExitCode::Success,
            },
        ),
        DiagModel::Usage => OutputModel::Cat(
            CatCmdModel { data: render::spec_help_text(cmd, false), exit_code: ExitCode::Usage },
        ),
        DiagModel::Error(msg) => OutputModel::Cat(
            CatCmdModel { data: spec_error_text(msg), exit_code: ExitCode::Error },
        ),
    }
}

fn diag_output(cmd: &Command, d: Diag) -> (r: Output)
    ensures
        r@ == spec_diag_output(cmd@, d@),
{
    match d {
        Diag::Help(long) => Output::Cat(CatCmd::new(render::help_text(cmd, long), ExitCode::Success)),
        Diag::Version(long) => Output::Cat(
            CatCmd::new(render::version_text(cmd, long), ExitCode::Success),
        ),
        Diag::Usage => Output::Cat(CatCmd::new(render::help_text(cmd, false), ExitCode::Usage)),
        Diag::Error(msg) => Output::Cat(CatCmd::new(error_text(msg.as_str()), ExitCode::Error)),
    }
}

/// The complete engine, as a mathematical function from the command
/// description, the token list and the environment snapshot to the final
/// output: an ill-formed description is a specification defect; with no
/// tokens at all and usage-on-missing-input enabled, the usage display is
/// returned; otherwise the tokens are scanned, the leftovers distributed
/// to the positionals, environment fallback and defaults applied, the
/// constraints checked, and the variables extracted.
pub open spec fn spec_parse(
    cmd: CommandModel,
    tokens: Seq<Seq<char>>,
    env: Seq<EnvVarModel>,
) -> OutputModel {
    if !cmd.wf() {
        OutputModel::Cat(CatCmdModel { data: spec_defect_text(), exit_code: ExitCode::Panic })
    } else if tokens.len() == 0 && cmd.arg_required_else_help {
        OutputModel::Cat(
            CatCmdModel { data: render::spec_help_text(cmd, false), exit_code: ExitCode::Usage },
        )
    } else {
        match matcher::spec_scan(cmd, tokens, 0, matcher::spec_scan_init(cmd)) {
            Err(d) => spec_diag_output(cmd, d),
            Ok(st) => match positional::spec_distribute(cmd, st) {
                Err(d) => spec_diag_output(cmd, d),
                Ok(slots) => match resolve::spec_resolve_from(cmd, slots, env, 0) {
                    Err(d) => spec_diag_output(cmd, d),
                    Ok(slots2) => match constraints::spec_constraints(cmd, slots2) {
                        Some(d) => spec_diag_output(cmd, d),
                        None => OutputModel::Variables(extract::spec_extract_from(cmd, slots2, 0)),
                    },
                },
            },
        }
    }
}

/// Parses the given tokens against the command description, under the
/// given environment snapshot, and produces the final output. This
/// function performs no I/O and never panics: every outcome, including a
/// defective description, is a well-formed `Output` value.
pub fn parse(cmd: Command, args: Vec<String>, env: Vec<EnvVar>) -> (r: Output)
    ensures
        r@ == spec_parse(cmd@, args.deep_view(), env_view(env)),
{
    if !cmd.is_valid() {
        let r = Output::Cat(
            CatCmd::new("error: invalid command specification\n".to_owned(), ExitCode::Panic),
        );
        proof {
            assert(r@ =~~= spec_parse(cmd@, args.deep_view(), env_view(env)));
        }
        return r;
    }
    if args.len() == 0 && cmd.arg_required_else_help {
        let r = Output::Cat(CatCmd::new(render::help_text(&cmd, false), ExitCode::Usage));
        proof {
            assert(args.deep_view().len() == 0);
            assert(r@ =~~= spec_parse(cmd@, args.deep_view(), env_view(env)));
        }
        return r;
    }
    let r = match matcher::scan(&cmd, &args) {
        Err(d) => diag_output(&cmd, d),
        Ok(st) => match positional::distribute(&cmd, st) {
            Err(d) => diag_output(&cmd, d),
            Ok(slots) => match resolve::resolve(&cmd, slots, &env) {
                Err(d) => diag_output(&cmd, d),
                Ok(slots2) => match constraints::check_constraints(&cmd, &slots2) {
                    Some(d) => diag_output(&cmd, d),
                    None => {
                        let vars = extract::extract(&cmd, &slots2);
                        let r = Output::Variables(vars);
                        proof {
                            assert(r@ =~~= OutputModel::Variables(
                                extract::spec_extract_from(
                                    cmd@,
                                    binding::slots_view(slots2),
                                    0,
                                ),
                            ));
                        }
                        r
                    },
                },
            },
        },
    };
    r
}

/// The text block reported for an intercepted internal fault: the fault's
/// own message when one is available, a generic note otherwise, mapped to
/// the dedicated fault exit code.
pub open spec fn spec_panic_text(message: Option<Seq<char>>) -> Seq<char> {
    match message {
        Some(m) => m + "\n"@,
        None => "An unexpected panic occurred\n"@,
    }
}

/// Converts an intercepted fault into the fault text block, so that even
/// an unexpected defect yields complete, well-formed shell text with the
/// dedicated exit code.
pub fn panic_output(message: Option<String>) -> (r: Output)
    ensures
        r@ == OutputModel::Cat(
            CatCmdModel {
                data: spec_panic_text(message.deep_view()),
                exit_code: ExitCode::Panic,
            },
        ),
{
    match message {
        Some(m) => {
            let ghost m0 = m@;
            let mut s = m;
            s.append("\n");
            let r = Output::Cat(CatCmd::new(s, ExitCode::Panic));
            proof {
                assert(message.deep_view() == Some(m0));
                assert(r@->Cat_0.data =~= m0 + "\n"@);
            }
            r
        },
        None => {
            let r = Output::Cat(
                CatCmd::new("An unexpected panic occurred\n".to_owned(), ExitCode::Panic),
            );
            proof {
                assert(r@->Cat_0.data =~= spec_panic_text(message.deep_view()));
            }
            r
        },
    }
}

} // verus!
