//! Rendering of help, usage and version text.
//!
//! Styling decisions never reach this layer: the text is plain, fixed-form
//! and fully determined by the command description, so that one run's
//! output is reproducible byte for byte.
use vstd::prelude::*;

use crate::command::{Arg, ArgModel, Command, CommandModel};
use crate::matcher::spec_version_enabled;
use crate::strutil::push_char;

verus! {

/// The version line: the command name and its version string (the long
/// form preferred for the long flag), ending in a newline.
pub open spec fn spec_version_text(cmd: CommandModel, long: bool) -> Seq<char> {
    let ver: Option<Seq<char>> = if long {
        if cmd.long_version is Some {
            cmd.long_version
        } else {
            cmd.version
        }
    } else {
        if cmd.version is Some {
            cmd.version
        } else {
            cmd.long_version
        }
    };
    match ver {
        Some(v) => cmd.name + " "@ + v + "\n"@,
        None => cmd.name + "\n"@,
    }
}

/// Renders the version line.
pub fn version_text(cmd: &Command, long: bool) -> (r: String)
    ensures
        r@ == spec_version_text(cmd@, long),
{
    let mut s = String::new();
    s.append(cmd.name.as_str());
    let ver: &Option<String> = if long {
        if cmd.long_version.is_some() {
            &cmd.long_version
        } else {
            &cmd.version
        }
    } else {
        if cmd.version.is_some() {
            &cmd.version
        } else {
            &cmd.long_version
        }
    };
    match ver {
        Some(v) => {
            s.append(" ");
            s.append(v.as_str());
            s.append("\n");
        },
        None => {
            s.append("\n");
        },
    }
    proof {
        assert(s@ =~= spec_version_text(cmd@, long));
    }
    s
}

/// The placeholder for one argument's value in usage and option lines:
/// its first value name if one is set, its identifier otherwise.
pub open spec fn spec_value_base(name: Seq<char>, a: ArgModel) -> Seq<char> {
    if a.value_names.len() > 0 {
        a.value_names[0]
    } else {
        name
    }
}

/// One positional argument in the usage line: angle brackets when
/// required, square brackets otherwise, an ellipsis when it takes several
/// values.
pub open spec fn spec_usage_pos(name: Seq<char>, a: ArgModel) -> Seq<char> {
    let base = spec_value_base(name, a);
    let core = if a.required {
        "<"@ + base + ">"@
    } else {
        "["@ + base + "]"@
    };
    if a.max_values() > 1 {
        core + "..."@
    } else {
        core
    }
}

fn value_base<'a>(name: &'a String, a: &'a Arg) -> (r: &'a String)
    ensures
        r@ == spec_value_base(name@, a@),
{
    if a.value_names.len() > 0 {
        &a.value_names[0]
    } else {
        name
    }
}

/// Appends one positional's usage form to `out`.
fn append_usage_pos(out: &mut String, name: &String, a: &Arg)
    ensures
        final(out)@ == old(out)@ + spec_usage_pos(name@, a@),
{
    let base = value_base(name, a);
    if a.required {
        out.append("<");
        out.append(base.as_str());
        out.append(">");
    } else {
        out.append("[");
        out.append(base.as_str());
        out.append("]");
    }
    if a.max_values() > 1 {
        out.append("...");
    }
    proof {
        assert(out@ =~= old(out)@ + spec_usage_pos(name@, a@));
    }
}

/// Whether some argument from `i` on is a visible option.
pub open spec fn spec_any_opt_from(cmd: CommandModel, i: int) -> bool
    decreases cmd.args.len() - i,
{
    if !(0 <= i < cmd.args.len()) {
        false
    } else {
        (!cmd.args[i].arg.is_positional() && !cmd.args[i].arg.hide) || spec_any_opt_from(
            cmd,
            i + 1,
        )
    }
}

/// Whether some argument from `i` on is a visible positional.
pub open spec fn spec_any_pos_from(cmd: CommandModel, i: int) -> bool
    decreases cmd.args.len() - i,
{
    if !(0 <= i < cmd.args.len()) {
        false
    } else {
        (cmd.args[i].arg.is_positional() && !cmd.args[i].arg.hide) || spec_any_pos_from(
            cmd,
            i + 1,
        )
    }
}

fn any_opt(cmd: &Command) -> (r: bool)
    ensures
        r == spec_any_opt_from(cmd@, 0),
{
    let mut i: usize = cmd.args.len();
    let mut r = false;
    while i > 0
        invariant
            i <= cmd.args.len(),
            r == spec_any_opt_from(cmd@, i as int),
        decreases i,
    {
        i = i - 1;
        let a = &cmd.args[i].arg;
        if !a.is_positional() && !a.hide {
            r = true;
        }
    }
    r
}

fn any_pos(cmd: &Command) -> (r: bool)
    ensures
        r == spec_any_pos_from(cmd@, 0),
{
    let mut i: usize = cmd.args.len();
    let mut r = false;
    while i > 0
        invariant
            i <= cmd.args.len(),
            r == spec_any_pos_from(cmd@, i as int),
        decreases i,
    {
        i = i - 1;
        let a = &cmd.args[i].arg;
        if a.is_positional() && !a.hide {
            r = true;
        }
    }
    r
}

/// The usage parts of the visible positionals from `i` on, each preceded
/// by one space.
pub open spec fn spec_usage_pos_from(cmd: CommandModel, i: int) -> Seq<char>
    decreases cmd.args.len() - i,
{
    if !(0 <= i < cmd.args.len()) {
        Seq::empty()
    } else {
        (if cmd.args[i].arg.is_positional() && !cmd.args[i].arg.hide {
            " "@ + spec_usage_pos(cmd.args[i].name, cmd.args[i].arg)
        } else {
            Seq::empty()
        }) + spec_usage_pos_from(cmd, i + 1)
    }
}

/// The usage line (without the leading label): the overridden text when
/// one is set; otherwise the binary name, an options marker when visible
/// options exist, and the positionals in declared order.
pub open spec fn spec_usage(cmd: CommandModel) -> Seq<char> {
    match cmd.override_usage {
        Some(u) => u,
        None => {
            let bin = match cmd.bin_name {
                Some(b) => b,
                None => cmd.name,
            };
            bin + (if spec_any_opt_from(cmd, 0) || !cmd.disable_help_flag || spec_version_enabled(
                cmd,
            ) {
                " [OPTIONS]"@
            } else {
                Seq::empty()
            }) + spec_usage_pos_from(cmd, 0)
        },
    }
}

/// Appends the usage line to `out`.
#[verifier::loop_isolation(false)]
fn append_usage(out: &mut String, cmd: &Command)
    ensures
        final(out)@ == old(out)@ + spec_usage(cmd@),
{
    match &cmd.override_usage {
        Some(u) => {
            out.append(u.as_str());
        },
        None => {
            match &cmd.bin_name {
                Some(b) => out.append(b.as_str()),
                None => out.append(cmd.name.as_str()),
            }
            if any_opt(cmd) || !cmd.disable_help_flag || cmd.version_enabled() {
                out.append(" [OPTIONS]");
            }
            let mut i: usize = 0;
            while i < cmd.args.len()
                invariant
                    i <= cmd.args.len(),
                    out@ =~= old(out)@ + spec_usage(cmd@).subrange(
                        0,
                        spec_usage(cmd@).len() - spec_usage_pos_from(cmd@, i as int).len(),
                    ),
                    spec_usage_pos_from(cmd@, i as int).len() <= spec_usage(cmd@).len(),
                    spec_usage(cmd@) == spec_usage(cmd@).subrange(
                        0,
                        spec_usage(cmd@).len() - spec_usage_pos_from(cmd@, i as int).len(),
                    ) + spec_usage_pos_from(cmd@, i as int),
                decreases cmd.args.len() - i,
            {
                let a = &cmd.args[i].arg;
                proof {
                    assert(a@ == cmd@.args[i as int].arg);
                    assert(cmd.args@[i as int].name@ == cmd@.args[i as int].name);
                }
                if a.is_positional() && !a.hide {
                    out.append(" ");
                    append_usage_pos(out, &cmd.args[i].name, a);
                }
                proof {
                    assert(spec_usage_pos_from(cmd@, i as int) == (if cmd@.args[
                        i as int
                    ].arg.is_positional() && !cmd@.args[i as int].arg.hide {
                        " "@ + spec_usage_pos(cmd@.args[i as int].name, cmd@.args[i as int].arg)
                    } else {
                        Seq::<char>::empty()
                    }) + spec_usage_pos_from(cmd@, i + 1));
                    assert(out@ =~= old(out)@ + spec_usage(cmd@).subrange(
                        0,
                        spec_usage(cmd@).len() - spec_usage_pos_from(cmd@, i + 1).len(),
                    ));
                }
                i = i + 1;
            }
            proof {
                assert(out@ =~= old(out)@ + spec_usage(cmd@));
            }
        },
    }
}

/// The value placeholders of one option, each preceded by one space, from
/// entry `k` of its value-name list on.
pub open spec fn spec_vals_from(vns: Seq<Seq<char>>, k: int) -> Seq<char>
    decreases vns.len() - k,
{
    if !(0 <= k < vns.len()) {
        Seq::empty()
    } else {
        " <"@ + vns[k] + ">"@ + spec_vals_from(vns, k + 1)
    }
}

/// The value part of one option line: its named placeholders, or one
/// placeholder named after the argument when it takes values.
pub open spec fn spec_opt_vals(name: Seq<char>, a: ArgModel) -> Seq<char> {
    if a.value_names.len() > 0 {
        spec_vals_from(a.value_names, 0)
    } else if a.max_values() > 0 {
        " <"@ + name + ">"@
    } else {
        Seq::empty()
    }
}

/// The flag part of one option line.
pub open spec fn spec_opt_flags(a: ArgModel) -> Seq<char> {
    if a.short is Some && a.long is Some {
        "-"@ + seq![a.short->0] + ", --"@ + a.long->0
    } else if a.short is Some {
        "-"@ + seq![a.short->0]
    } else if a.long is Some {
        "    --"@ + a.long->0
    } else {
        Seq::empty()
    }
}

/// The help text shown for an argument: the long variant preferred in
/// long help.
pub open spec fn spec_arg_help(a: ArgModel, long: bool) -> Option<Seq<char>> {
    if long {
        if a.long_help is Some {
            a.long_help
        } else {
            a.help
        }
    } else {
        a.help
    }
}

/// One option line: two spaces, the flags, the value placeholders, and
/// the help text set off by two spaces.
pub open spec fn spec_opt_line(name: Seq<char>, a: ArgModel, long: bool) -> Seq<char> {
    "  "@ + spec_opt_flags(a) + spec_opt_vals(name, a) + (match spec_arg_help(a, long) {
        Some(h) => "  "@ + h,
        None => Seq::empty(),
    }) + "\n"@
}

/// One positional line in the arguments section.
pub open spec fn spec_pos_line(name: Seq<char>, a: ArgModel, long: bool) -> Seq<char> {
    "  "@ + spec_usage_pos(name, a) + (match spec_arg_help(a, long) {
        Some(h) => "  "@ + h,
        None => Seq::empty(),
    }) + "\n"@
}

/// Appends one option or positional line to `out`.
#[verifier::loop_isolation(false)]
#[verifier::rlimit(100)]
#[verifier::spinoff_prover]
fn append_arg_line(out: &mut String, name: &String, a: &Arg, long: bool, positional: bool)
    ensures
        final(out)@ == old(out)@ + if positional {
            spec_pos_line(name@, a@, long)
        } else {
            spec_opt_line(name@, a@, long)
        },
{
    out.append("  ");
    if positional {
        append_usage_pos(out, name, a);
    } else {
        match (&a.short, &a.long) {
            (Some(c), Some(l)) => {
                out.append("-");
                push_char(out, *c);
                out.append(", --");
                out.append(l.as_str());
            },
            (Some(c), None) => {
                out.append("-");
                push_char(out, *c);
            },
            (None, Some(l)) => {
                out.append("    --");
                out.append(l.as_str());
            },
            (None, None) => {},
        }
        proof {
            assert(out@ =~= old(out)@ + "  "@ + spec_opt_flags(a@));
        }
        if a.value_names.len() > 0 {
            let ghost base = out@;
            let mut k: usize = 0;
            while k < a.value_names.len()
                invariant
                    k <= a.value_names.len(),
                    base + spec_vals_from(a@.value_names, 0) =~= out@ + spec_vals_from(
                        a@.value_names,
                        k as int,
                    ),
                decreases a.value_names.len() - k,
            {
                out.append(" <");
                out.append(a.value_names[k].as_str());
                out.append(">");
                proof {
                    assert(base + spec_vals_from(a@.value_names, 0) =~= out@ + spec_vals_from(
                        a@.value_names,
                        k + 1,
                    ));
                }
                k = k + 1;
            }
            proof {
                assert(out@ =~= base + spec_vals_from(a@.value_names, 0));
            }
        } else if a.max_values() > 0 {
            out.append(" <");
            out.append(name.as_str());
            out.append(">");
        }
    }
    let h: &Option<String> = if long {
        if a.long_help.is_some() {
            &a.long_help
        } else {
            &a.help
        }
    } else {
        &a.help
    };
    if let Some(ht) = h {
        out.append("  ");
        out.append(ht.as_str());
    }
    out.append("\n");
    proof {
        if positional {
            assert(out@ =~= old(out)@ + spec_pos_line(name@, a@, long));
        } else {
            assert(out@ =~= old(out)@ + spec_opt_line(name@, a@, long));
        }
    }
}

/// The lines of the visible positionals from `i` on.
pub open spec fn spec_pos_lines_from(cmd: CommandModel, i: int, long: bool) -> Seq<char>
    decreases cmd.args.len() - i,
{
    if !(0 <= i < cmd.args.len()) {
        Seq::empty()
    } else {
        (if cmd.args[i].arg.is_positional() && !cmd.args[i].arg.hide {
            spec_pos_line(cmd.args[i].name, cmd.args[i].arg, long)
        } else {
            Seq::empty()
        }) + spec_pos_lines_from(cmd, i + 1, long)
    }
}

/// The lines of the visible options from `i` on.
pub open spec fn spec_opt_lines_from(cmd: CommandModel, i: int, long: bool) -> Seq<char>
    decreases cmd.args.len() - i,
{
    if !(0 <= i < cmd.args.len()) {
        Seq::empty()
    } else {
        (if !cmd.args[i].arg.is_positional() && !cmd.args[i].arg.hide {
            spec_opt_line(cmd.args[i].name, cmd.args[i].arg, long)
        } else {
            Seq::empty()
        }) + spec_opt_lines_from(cmd, i + 1, long)
    }
}

/// Appends the lines of the visible positionals.
#[verifier::loop_isolation(false)]
fn append_pos_lines(out: &mut String, cmd: &Command, long: bool)
    ensures
        final(out)@ == old(out)@ + spec_pos_lines_from(cmd@, 0, long),
{
    let ghost base = out@;
    let mut i: usize = 0;
    while i < cmd.args.len()
        invariant
            i <= cmd.args.len(),
            base + spec_pos_lines_from(cmd@, 0, long) =~= out@ + spec_pos_lines_from(
                cmd@,
                i as int,
                long,
            ),
        decreases cmd.args.len() - i,
    {
        let a = &cmd.args[i].arg;
        proof {
            assert(a@ == cmd@.args[i as int].arg);
            assert(cmd.args@[i as int].name@ == cmd@.args[i as int].name);
        }
        if a.is_positional() && !a.hide {
            append_arg_line(out, &cmd.args[i].name, a, long, true);
        }
        proof {
            assert(base + spec_pos_lines_from(cmd@, 0, long) =~= out@ + spec_pos_lines_from(
                cmd@,
                i + 1,
                long,
            ));
        }
        i = i + 1;
    }
    proof {
        assert(out@ =~= base + spec_pos_lines_from(cmd@, 0, long));
    }
}

/// Appends the lines of the visible options.
#[verifier::loop_isolation(false)]
fn append_opt_lines(out: &mut String, cmd: &Command, long: bool)
    ensures
        final(out)@ == old(out)@ + spec_opt_lines_from(cmd@, 0, long),
{
    let ghost base = out@;
    let mut i: usize = 0;
    while i < cmd.args.len()
        invariant
            i <= cmd.args.len(),
            base + spec_opt_lines_from(cmd@, 0, long) =~= out@ + spec_opt_lines_from(
                cmd@,
                i as int,
                long,
            ),
        decreases cmd.args.len() - i,
    {
        let a = &cmd.args[i].arg;
        proof {
            assert(a@ == cmd@.args[i as int].arg);
            assert(cmd.args@[i as int].name@ == cmd@.args[i as int].name);
        }
        if !a.is_positional() && !a.hide {
            append_arg_line(out, &cmd.args[i].name, a, long, false);
        }
        proof {
            assert(base + spec_opt_lines_from(cmd@, 0, long) =~= out@ + spec_opt_lines_from(
                cmd@,
                i + 1,
                long,
            ));
        }
        i = i + 1;
    }
    proof {
        assert(out@ =~= base + spec_opt_lines_from(cmd@, 0, long));
    }
}

/// The leading part of the help text: the leading note, the about text
/// and the usage line.
pub open spec fn spec_help_prefix(cmd: CommandModel, long: bool) -> Seq<char> {
    let before: Option<Seq<char>> = if long && cmd.before_long_help is Some {
        cmd.before_long_help
    } else {
        cmd.before_help
    };
    let about: Option<Seq<char>> = if long && cmd.long_about is Some {
        cmd.long_about
    } else {
        cmd.about
    };
    (match before {
        Some(b) => b + "\n"@,
        None => Seq::empty(),
    }) + (match about {
        Some(ab) => ab + "\n\n"@,
        None => Seq::empty(),
    }) + "Usage: "@ + spec_usage(cmd) + "\n"@
}

/// The trailing part of the help text: the arguments and options sections
/// (with the implicit help and version lines) and the trailing note.
pub open spec fn spec_help_sections(cmd: CommandModel, long: bool) -> Seq<char> {
    let after: Option<Seq<char>> = if long && cmd.after_long_help is Some {
        cmd.after_long_help
    } else {
        cmd.after_help
    };
    (if spec_any_pos_from(cmd, 0) {
        "\nArguments:\n"@ + spec_pos_lines_from(cmd, 0, long)
    } else {
        Seq::empty()
    }) + (if spec_any_opt_from(cmd, 0) || !cmd.disable_help_flag || spec_version_enabled(cmd) {
        "\nOptions:\n"@ + spec_opt_lines_from(cmd, 0, long) + (if !cmd.disable_help_flag {
            "  -h, --help  Print help\n"@
        } else {
            Seq::empty()
        }) + (if spec_version_enabled(cmd) {
            "  -V, --version  Print version\n"@
        } else {
            Seq::empty()
        })
    } else {
        Seq::empty()
    }) + (match after {
        Some(af) => "\n"@ + af + "\n"@,
        None => Seq::empty(),
    })
}

/// The whole help text: an overriding text when one is set; otherwise the
/// leading note, the about text, the usage line, the arguments and
/// options sections, and the trailing note.
pub open spec fn spec_help_text(cmd: CommandModel, long: bool) -> Seq<char> {
    match cmd.override_help {
        Some(h) => h + "\n"@,
        None => spec_help_prefix(cmd, long) + spec_help_sections(cmd, long),
    }
}

/// Renders the leading part of the help text.
#[verifier::loop_isolation(false)]
#[verifier::rlimit(60)]
fn help_prefix(cmd: &Command, long: bool) -> (r: String)
    ensures
        r@ == spec_help_prefix(cmd@, long),
{
    let mut s = String::new();
    let before: &Option<String> = if long && cmd.before_long_help.is_some() {
        &cmd.before_long_help
    } else {
        &cmd.before_help
    };
    if let Some(b) = before {
        s.append(b.as_str());
        s.append("\n");
    }
    let about: &Option<String> = if long && cmd.long_about.is_some() {
        &cmd.long_about
    } else {
        &cmd.about
    };
    if let Some(ab) = about {
        s.append(ab.as_str());
        s.append("\n\n");
    }
    s.append("Usage: ");
    append_usage(&mut s, cmd);
    s.append("\n");
    proof {
        assert(s@ =~= spec_help_prefix(cmd@, long));
    }
    s
}

/// Appends the trailing sections of the help text.
/// Appends the arguments section, when visible positionals exist.
fn append_args_block(out: &mut String, cmd: &Command, long: bool)
    ensures
        final(out)@ == old(out)@ + (if spec_any_pos_from(cmd@, 0) {
            "\nArguments:\n"@ + spec_pos_lines_from(cmd@, 0, long)
        } else {
            Seq::<char>::empty()
        }),
{
    if any_pos(cmd) {
        out.append("\nArguments:\n");
        append_pos_lines(out, cmd, long);
        proof {
            assert(out@ =~= old(out)@ + ("\nArguments:\n"@ + spec_pos_lines_from(
                cmd@,
                0,
                long,
            )));
        }
    } else {
        proof {
            assert(out@ =~= old(out)@ + Seq::<char>::empty());
        }
    }
}

/// Appends the options section, including the implicit help and version
/// lines, when any option line is shown.
#[verifier::rlimit(60)]
fn append_options_block(out: &mut String, cmd: &Command, long: bool)
    ensures
        final(out)@ == old(out)@ + (if spec_any_opt_from(cmd@, 0) || !cmd@.disable_help_flag
            || spec_version_enabled(cmd@) {
            "\nOptions:\n"@ + spec_opt_lines_from(cmd@, 0, long) + (if !cmd@.disable_help_flag {
                "  -h, --help  Print help\n"@
            } else {
                Seq::<char>::empty()
            }) + (if spec_version_enabled(cmd@) {
                "  -V, --version  Print version\n"@
            } else {
                Seq::<char>::empty()
            })
        } else {
            Seq::<char>::empty()
        }),
{
    if any_opt(cmd) || !cmd.disable_help_flag || cmd.version_enabled() {
        out.append("\nOptions:\n");
        append_opt_lines(out, cmd, long);
        if !cmd.disable_help_flag {
            out.append("  -h, --help  Print help\n");
        }
        if cmd.version_enabled() {
            out.append("  -V, --version  Print version\n");
        }
        proof {
            assert(out@ =~= old(out)@ + ("\nOptions:\n"@ + spec_opt_lines_from(cmd@, 0, long)
                + (if !cmd@.disable_help_flag {
                "  -h, --help  Print help\n"@
            } else {
                Seq::<char>::empty()
            }) + (if spec_version_enabled(cmd@) {
                "  -V, --version  Print version\n"@
            } else {
                Seq::<char>::empty()
            })));
        }
    } else {
        proof {
            assert(out@ =~= old(out)@ + Seq::<char>::empty());
        }
    }
}

/// Appends the trailing note, when one is configured.
fn append_after_note(out: &mut String, cmd: &Command, long: bool)
    ensures
        final(out)@ == old(out)@ + (match (if long && cmd@.after_long_help is Some {
            cmd@.after_long_help
        } else {
            cmd@.after_help
        }) {
            Some(af) => "\n"@ + af + "\n"@,
            None => Seq::<char>::empty(),
        }),
{
    let after: &Option<String> = if long && cmd.after_long_help.is_some() {
        &cmd.after_long_help
    } else {
        &cmd.after_help
    };
    match after {
        Some(af) => {
            out.append("\n");
            out.append(af.as_str());
            out.append("\n");
            proof {
                assert(out@ =~= old(out)@ + ("\n"@ + af@ + "\n"@));
            }
        },
        None => {
            proof {
                assert(out@ =~= old(out)@ + Seq::<char>::empty());
            }
        },
    }
}

/// Appends the trailing sections of the help text.
#[verifier::rlimit(60)]
fn append_help_sections(out: &mut String, cmd: &Command, long: bool)
    ensures
        final(out)@ == old(out)@ + spec_help_sections(cmd@, long),
{
    append_args_block(out, cmd, long);
    append_options_block(out, cmd, long);
    append_after_note(out, cmd, long);
    proof {
        assert(out@ =~= old(out)@ + spec_help_sections(cmd@, long));
    }
}

/// Renders the whole help text; see `spec_help_text`.
pub fn help_text(cmd: &Command, long: bool) -> (r: String)
    ensures
        r@ == spec_help_text(cmd@, long),
{
    if let Some(h) = &cmd.override_help {
        let mut s = String::new();
        s.append(h.as_str());
        s.append("\n");
        proof {
            assert(s@ =~= spec_help_text(cmd@, long));
        }
        return s;
    }
    let mut s = help_prefix(cmd, long);
    append_help_sections(&mut s, cmd, long);
    s
}

} // verus!
