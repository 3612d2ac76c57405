//! Laws of the engine, stated once over all inputs and proved against the
//! same spec functions that the executable functions' contracts use.
use vstd::prelude::*;

use crate::binding::{spec_env_lookup, BindingModel, EnvVarModel, ValueSource};
use crate::command::{ArgModel, CommandModel, NamedArgModel};
use crate::constraints::{
    spec_check_required_from, spec_check_requires_from, spec_conflict_list_from,
    spec_constraints, spec_find_name_from, spec_has_unless, spec_overridden, spec_present,
    spec_present_name, spec_unless_met,
};
use crate::diag::{spec_arg_display, spec_msg_required, DiagModel};
use crate::extract::{spec_extract_from, spec_var_of};
use crate::matcher::{
    spec_find_char_from, spec_find_long, spec_handle_long, spec_is_long_token, spec_scan,
    spec_scan_init, spec_scan_step, ScanStateModel,
};
use crate::output::{spec_render_output, CatCmdModel, ExitCode, OutputModel, VarModel};
use crate::positional::{spec_distribute, spec_fill, spec_lo_filter};
use crate::resolve::{spec_resolve_arg, spec_resolve_from};
use crate::{spec_diag_output, spec_error_text, spec_parse};

verus! {

/// The identifier a variable carries.
pub open spec fn spec_var_name(v: VarModel) -> Seq<char> {
    match v {
        VarModel::Single(n, _) => n,
        VarModel::Many(n, _) => n,
    }
}

/// Every variable the extractor emits from position `i` on is named after
/// one of the arguments from `i` on; and under unique argument
/// identifiers, no emitted name repeats.
proof fn lemma_extract_names(cmd: CommandModel, slots: Seq<Option<BindingModel>>, i: int)
    ensures
        forall|k: int|
            0 <= k < spec_extract_from(cmd, slots, i).len() ==> exists|j: int|
                i <= j < cmd.args.len() && spec_var_name(
                    #[trigger] spec_extract_from(cmd, slots, i)[k],
                ) == cmd.args[j].name,
        cmd.wf() ==> forall|k1: int, k2: int|
            0 <= k1 < k2 < spec_extract_from(cmd, slots, i).len() ==> spec_var_name(
                #[trigger] spec_extract_from(cmd, slots, i)[k1],
            ) != spec_var_name(#[trigger] spec_extract_from(cmd, slots, i)[k2]),
    decreases cmd.args.len() - i,
{
    if 0 <= i < cmd.args.len() {
        lemma_extract_names(cmd, slots, i + 1);
        let head: Seq<VarModel> = if 0 <= i < slots.len() && slots[i] is Some {
            match spec_var_of(cmd, i, slots[i]->0) {
                Some(v) => seq![v],
                None => Seq::empty(),
            }
        } else {
            Seq::empty()
        };
        let tail = spec_extract_from(cmd, slots, i + 1);
        assert(spec_extract_from(cmd, slots, i) == head + tail);
        assert forall|k: int| 0 <= k < spec_extract_from(cmd, slots, i).len() implies exists|
            j: int,
        |
            i <= j < cmd.args.len() && spec_var_name(
                #[trigger] spec_extract_from(cmd, slots, i)[k],
            ) == cmd.args[j].name by {
            if k < head.len() {
                assert(spec_extract_from(cmd, slots, i)[k] == head[0]);
                assert(spec_var_name(head[0]) == cmd.args[i].name);
            } else {
                assert(spec_extract_from(cmd, slots, i)[k] == tail[k - head.len()]);
            }
        }
        if cmd.wf() {
            assert forall|k1: int, k2: int|
                0 <= k1 < k2 < spec_extract_from(cmd, slots, i).len() implies spec_var_name(
                #[trigger] spec_extract_from(cmd, slots, i)[k1],
            ) != spec_var_name(#[trigger] spec_extract_from(cmd, slots, i)[k2]) by {
                if k1 >= head.len() {
                    assert(spec_extract_from(cmd, slots, i)[k1] == tail[k1 - head.len()]);
                    assert(spec_extract_from(cmd, slots, i)[k2] == tail[k2 - head.len()]);
                } else {
                    assert(spec_extract_from(cmd, slots, i)[k1] == head[0]);
                    assert(spec_var_name(head[0]) == cmd.args[i].name);
                    assert(spec_extract_from(cmd, slots, i)[k2] == tail[k2 - head.len()]);
                    let j = choose|j: int|
                        i + 1 <= j < cmd.args.len() && spec_var_name(
                            tail[k2 - head.len()],
                        ) == cmd.args[j].name;
                    assert(cmd.args[i].name != cmd.args[j].name);
                }
            }
        }
    }
}

/// For every command description, token list and environment snapshot,
/// the engine yields a well-formed output: when it yields variables, each
/// one is named after an argument of the command and no name repeats;
/// when it yields a text block, the block carries one of the four fixed
/// exit codes. It never fails to yield an output at all.
pub proof fn lemma_parse_well_formed(
    cmd: CommandModel,
    tokens: Seq<Seq<char>>,
    env: Seq<EnvVarModel>,
)
    ensures
        match spec_parse(cmd, tokens, env) {
            OutputModel::Variables(vars) => (forall|k: int|
                0 <= k < vars.len() ==> exists|j: int|
                    0 <= j < cmd.args.len() && spec_var_name(#[trigger] vars[k])
                        == cmd.args[j].name) && (forall|k1: int, k2: int|
                0 <= k1 < k2 < vars.len() ==> spec_var_name(#[trigger] vars[k1])
                    != spec_var_name(#[trigger] vars[k2])),
            OutputModel::Cat(c) => 0 <= c.exit_code.spec_code() <= 3,
        },
{
    if cmd.wf() && !(tokens.len() == 0 && cmd.arg_required_else_help) {
        match crate::matcher::spec_scan(cmd, tokens, 0, crate::matcher::spec_scan_init(cmd)) {
            Err(_) => {},
            Ok(st) => match crate::positional::spec_distribute(cmd, st) {
                Err(_) => {},
                Ok(slots) => match crate::resolve::spec_resolve_from(cmd, slots, env, 0) {
                    Err(_) => {},
                    Ok(slots2) => match crate::constraints::spec_constraints(cmd, slots2) {
                        Some(_) => {},
                        None => {
                            lemma_extract_names(cmd, slots2, 0);
                        },
                    },
                },
            },
        }
    }
}

/// Re-running the engine with the same description, the same tokens and
/// the same environment snapshot yields the same output, and so
/// byte-identical shell text.
pub proof fn lemma_parse_deterministic(
    cmd1: CommandModel,
    tokens1: Seq<Seq<char>>,
    env1: Seq<EnvVarModel>,
    cmd2: CommandModel,
    tokens2: Seq<Seq<char>>,
    env2: Seq<EnvVarModel>,
)
    requires
        cmd1 == cmd2,
        tokens1 == tokens2,
        env1 == env2,
    ensures
        spec_parse(cmd1, tokens1, env1) == spec_parse(cmd2, tokens2, env2),
        spec_render_output(spec_parse(cmd1, tokens1, env1)) == spec_render_output(
            spec_parse(cmd2, tokens2, env2),
        ),
{
}

/// Presence of a named argument is monotone in the presence set.
proof fn lemma_present_name_monotonic(
    cmd: CommandModel,
    slots: Seq<Option<BindingModel>>,
    slots2: Seq<Option<BindingModel>>,
    name: Seq<char>,
)
    requires
        forall|j: int| 0 <= j < slots.len() ==> (spec_present(slots, j) ==> spec_present(
            slots2,
            j,
        )),
    ensures
        spec_present_name(cmd, slots, name) ==> spec_present_name(cmd, slots2, name),
{
}

/// The conditional-requirement rules are monotone in the presence set:
/// making further arguments present can only satisfy a
/// required-unless-present condition, never unsatisfy it; so it can only
/// remove the violation of the conditional-requirement check, never
/// introduce one.
pub proof fn lemma_required_unless_monotonic(
    cmd: CommandModel,
    slots: Seq<Option<BindingModel>>,
    slots2: Seq<Option<BindingModel>>,
    i: int,
)
    requires
        0 <= i < cmd.args.len(),
        slots.len() == slots2.len(),
        forall|j: int| 0 <= j < slots.len() ==> (spec_present(slots, j) ==> spec_present(
            slots2,
            j,
        )),
    ensures
        spec_unless_met(cmd, slots, i) ==> spec_unless_met(cmd, slots2, i),
        (spec_has_unless(cmd, i) && !spec_present(slots2, i) && !spec_unless_met(cmd, slots2, i))
            ==> (spec_has_unless(cmd, i) && !spec_present(slots, i) && !spec_unless_met(
            cmd,
            slots,
            i,
        )),
{
    let a = cmd.args[i].arg;
    if spec_unless_met(cmd, slots, i) {
        if a.required_unless_present is Some && spec_present_name(
            cmd,
            slots,
            a.required_unless_present->0,
        ) {
            lemma_present_name_monotonic(cmd, slots, slots2, a.required_unless_present->0);
        } else if a.required_unless_present_all.len() > 0 && (forall|j: int|
            0 <= j < a.required_unless_present_all.len() ==> spec_present_name(
                cmd,
                slots,
                #[trigger] a.required_unless_present_all[j],
            )) {
            assert forall|j: int|
                0 <= j < a.required_unless_present_all.len() implies spec_present_name(
                cmd,
                slots2,
                #[trigger] a.required_unless_present_all[j],
            ) by {
                lemma_present_name_monotonic(cmd, slots, slots2, a.required_unless_present_all[j]);
            }
        } else {
            let j = choose|j: int|
                0 <= j < a.required_unless_present_any.len() && spec_present_name(
                    cmd,
                    slots,
                    #[trigger] a.required_unless_present_any[j],
                );
            lemma_present_name_monotonic(cmd, slots, slots2, a.required_unless_present_any[j]);
        }
    }
}

/// An explicit command-line binding always wins; the environment binds an
/// argument exactly when no command-line occurrence did and its variable
/// is in the snapshot; a configured default binds it exactly when neither
/// a command-line occurrence nor the environment did.
pub proof fn lemma_env_default_precedence(
    cmd: CommandModel,
    i: int,
    slot: Option<BindingModel>,
    env: Seq<EnvVarModel>,
)
    requires
        0 <= i < cmd.args.len(),
    ensures
        slot is Some ==> spec_resolve_arg(cmd, i, slot, env) == Ok::<
            Option<BindingModel>,
            crate::diag::DiagModel,
        >(slot),
        (slot is None && match spec_resolve_arg(cmd, i, slot, env) {
            Ok(s) => s is Some && s->0.source is EnvVariable,
            Err(_) => false,
        }) ==> (cmd.args[i].arg.env is Some && spec_env_lookup(
            env,
            cmd.args[i].arg.env->0,
        ) is Some),
        (slot is None && match spec_resolve_arg(cmd, i, slot, env) {
            Ok(s) => s is Some && s->0.source is DefaultValue,
            Err(_) => false,
        }) ==> !(cmd.args[i].arg.env is Some && spec_env_lookup(
            env,
            cmd.args[i].arg.env->0,
        ) is Some),
        (slot is None && cmd.args[i].arg.env is Some && spec_env_lookup(
            env,
            cmd.args[i].arg.env->0,
        ) is Some) ==> (match spec_resolve_arg(cmd, i, slot, env) {
            Ok(s) => s is Some && s->0.source is EnvVariable,
            Err(_) => true,
        }),
        (slot is None && !(cmd.args[i].arg.env is Some && spec_env_lookup(
            env,
            cmd.args[i].arg.env->0,
        ) is Some) && cmd.args[i].arg.default_values.len() > 0) ==> spec_resolve_arg(
            cmd,
            i,
            slot,
            env,
        ) == Ok::<Option<BindingModel>, crate::diag::DiagModel>(
            Some(
                BindingModel {
                    values: cmd.args[i].arg.default_values,
                    count: 0,
                    source: ValueSource::DefaultValue,
                },
            ),
        ),
{
}

/// An overridden argument is removed from the conflict-check presence set
/// for that evaluation only, as a named partner of another argument's
/// conflict rule: the entry naming it is passed over, while the argument
/// itself stays present, so every rule that asks about presence — a
/// requirement, a conditional requirement, another conflict entry — still
/// sees it.
pub proof fn lemma_overrides_scope(
    cmd: CommandModel,
    slots: Seq<Option<BindingModel>>,
    i: int,
    l: int,
    j: int,
)
    requires
        0 <= i < cmd.args.len(),
        0 <= l < cmd.args[i].arg.conflicts_with.len(),
        spec_find_name_from(cmd, cmd.args[i].arg.conflicts_with[l], 0) == Some(j),
        spec_overridden(cmd, slots, j),
    ensures
        spec_conflict_list_from(cmd, slots, i, l) == spec_conflict_list_from(cmd, slots, i, l + 1),
{
}

/// An overridden argument is also removed from the conflict-check
/// presence set as the owner of its own conflict rules: none of them is
/// evaluated, and the walk continues with the next argument.
pub proof fn lemma_overrides_shield_owner(
    cmd: CommandModel,
    slots: Seq<Option<BindingModel>>,
    i: int,
)
    requires
        0 <= i < cmd.args.len(),
        spec_overridden(cmd, slots, i),
    ensures
        crate::constraints::spec_check_conflicts_from(cmd, slots, i)
            == crate::constraints::spec_check_conflicts_from(cmd, slots, i + 1),
{
}

/// Extraction ignores the overrides lists: an overridden argument still
/// yields its variable exactly as it would without the override.
pub proof fn lemma_extract_ignores_overrides(
    cmd1: CommandModel,
    cmd2: CommandModel,
    slots: Seq<Option<BindingModel>>,
    i: int,
)
    requires
        cmd1.args.len() == cmd2.args.len(),
        forall|k: int|
            0 <= k < cmd1.args.len() ==> same_but_overrides(
                #[trigger] cmd1.args[k],
                cmd2.args[k],
            ),
    ensures
        spec_extract_from(cmd1, slots, i) == spec_extract_from(cmd2, slots, i),
    decreases cmd1.args.len() - i,
{
    if 0 <= i < cmd1.args.len() {
        lemma_extract_ignores_overrides(cmd1, cmd2, slots, i + 1);
        assert(same_but_overrides(cmd1.args[i], cmd2.args[i]));
        if 0 <= i < slots.len() && slots[i] is Some {
            assert(spec_var_of(cmd1, i, slots[i]->0) == spec_var_of(cmd2, i, slots[i]->0));
        }
    }
}

/// Two argument descriptions that differ at most in their overrides lists.
pub open spec fn same_but_overrides(x: NamedArgModel, y: NamedArgModel) -> bool {
    &&& x.name == y.name
    &&& x.arg == (ArgModel { overrides_with: x.arg.overrides_with, ..y.arg })
}

/// A successful name lookup yields an index in range.
proof fn lemma_find_name_range(cmd: CommandModel, name: Seq<char>, i: int)
    ensures
        match spec_find_name_from(cmd, name, i) {
            Some(j) => i <= j < cmd.args.len(),
            None => true,
        },
    decreases cmd.args.len() - i,
{
    if 0 <= i < cmd.args.len() {
        lemma_find_name_range(cmd, name, i + 1);
    }
}

/// Name lookup ignores the overrides lists.
proof fn lemma_find_name_ignores_overrides(
    cmd1: CommandModel,
    cmd2: CommandModel,
    name: Seq<char>,
    i: int,
)
    requires
        cmd1.args.len() == cmd2.args.len(),
        forall|k: int|
            0 <= k < cmd1.args.len() ==> same_but_overrides(
                #[trigger] cmd1.args[k],
                cmd2.args[k],
            ),
    ensures
        spec_find_name_from(cmd1, name, i) == spec_find_name_from(cmd2, name, i),
    decreases cmd1.args.len() - i,
{
    if 0 <= i < cmd1.args.len() {
        lemma_find_name_ignores_overrides(cmd1, cmd2, name, i + 1);
    }
}

/// The unconditional-requirement check ignores the overrides lists: a
/// present argument satisfies it, and an absent required one violates it,
/// whether or not any override names it.
pub proof fn lemma_required_ignores_overrides(
    cmd1: CommandModel,
    cmd2: CommandModel,
    slots: Seq<Option<BindingModel>>,
    i: int,
)
    requires
        cmd1.args.len() == cmd2.args.len(),
        forall|k: int|
            0 <= k < cmd1.args.len() ==> same_but_overrides(
                #[trigger] cmd1.args[k],
                cmd2.args[k],
            ),
    ensures
        spec_check_required_from(cmd1, slots, i) == spec_check_required_from(cmd2, slots, i),
    decreases cmd1.args.len() - i,
{
    if 0 <= i < cmd1.args.len() {
        lemma_required_ignores_overrides(cmd1, cmd2, slots, i + 1);
    }
}

/// The dependency check ignores the overrides lists, too.
pub proof fn lemma_requires_ignores_overrides(
    cmd1: CommandModel,
    cmd2: CommandModel,
    slots: Seq<Option<BindingModel>>,
    i: int,
)
    requires
        cmd1.args.len() == cmd2.args.len(),
        forall|k: int|
            0 <= k < cmd1.args.len() ==> same_but_overrides(
                #[trigger] cmd1.args[k],
                cmd2.args[k],
            ),
    ensures
        spec_check_requires_from(cmd1, slots, i) == spec_check_requires_from(cmd2, slots, i),
    decreases cmd1.args.len() - i,
{
    if 0 <= i < cmd1.args.len() {
        lemma_requires_ignores_overrides(cmd1, cmd2, slots, i + 1);
        assert(same_but_overrides(cmd1.args[i], cmd2.args[i]));
        if spec_present(slots, i) && cmd1.args[i].arg.requires is Some {
            let r0 = cmd1.args[i].arg.requires->0;
            lemma_find_name_ignores_overrides(cmd1, cmd2, r0, 0);
            assert(spec_present_name(cmd1, slots, r0) == spec_present_name(cmd2, slots, r0));
            lemma_find_name_range(cmd1, r0, 0);
            if let Some(j) = spec_find_name_from(cmd1, r0, 0) {
                assert(same_but_overrides(cmd1.args[j], cmd2.args[j]));
            }
            assert(crate::constraints::spec_name_display(cmd1, r0)
                == crate::constraints::spec_name_display(cmd2, r0));
        }
    }
}

/// Filling positionals from an exhausted queue binds nothing.
proof fn lemma_fill_exhausted(
    cmd: CommandModel,
    ps: Seq<usize>,
    k: int,
    q: Seq<crate::matcher::LeftoverModel>,
    qi: int,
    slots: Seq<Option<BindingModel>>,
)
    requires
        0 <= qi,
        qi == q.len(),
    ensures
        spec_fill(cmd, ps, k, q, qi, slots) == Ok::<_, DiagModel>(slots),
    decreases ps.len() - k,
{
    if 0 <= k < ps.len() {
        lemma_fill_exhausted(cmd, ps, k + 1, q, qi, slots);
    }
}

/// Looking a name up in an empty snapshot finds nothing, so with an empty
/// snapshot resolution can only add default bindings: it never fails, and
/// it leaves the presence set exactly as it was.
proof fn lemma_resolve_keeps_presence(
    cmd: CommandModel,
    slots: Seq<Option<BindingModel>>,
    env: Seq<EnvVarModel>,
    i: int,
)
    requires
        env.len() == 0,
        slots.len() == cmd.args.len(),
    ensures
        match spec_resolve_from(cmd, slots, env, i) {
            Ok(s2) => s2.len() == slots.len() && forall|j: int|
                spec_present(s2, j) == spec_present(slots, j),
            Err(_) => false,
        },
    decreases cmd.args.len() - i,
{
    if 0 <= i < cmd.args.len() {
        let slot = slots[i];
        let r = spec_resolve_arg(cmd, i, slot, env);
        assert(r is Ok);
        let slots2 = slots.update(i, r->Ok_0);
        assert(slots2.len() == slots.len());
        assert(forall|j: int| spec_present(slots2, j) == spec_present(slots, j));
        lemma_resolve_keeps_presence(cmd, slots2, env, i + 1);
    }
}

/// The unconditional-requirement walk reports the first required argument
/// when nothing at all is present.
proof fn lemma_first_required_errors(
    cmd: CommandModel,
    slots: Seq<Option<BindingModel>>,
    i: int,
    i0: int,
)
    requires
        0 <= i <= i0 < cmd.args.len(),
        cmd.args[i0].arg.required,
        forall|j: int| i <= j < i0 ==> !cmd.args[j].arg.required,
        forall|j: int| !spec_present(slots, j),
    ensures
        spec_check_required_from(cmd, slots, i) == Some(
            DiagModel::Error(
                spec_msg_required(spec_arg_display(cmd.args[i0].name, cmd.args[i0].arg)),
            ),
        ),
    decreases i0 - i,
{
    if i < i0 {
        lemma_first_required_errors(cmd, slots, i + 1, i0);
    }
}

/// A required argument that nothing binds is rejected: with no tokens, an
/// empty environment snapshot and no route to a command-line or
/// environment binding, the run ends in the missing-required error block
/// with the generic error exit code — no variables are produced. The
/// first required argument in declaration order gives the message.
pub proof fn lemma_missing_required_rejected(
    cmd: CommandModel,
    tokens: Seq<Seq<char>>,
    env: Seq<EnvVarModel>,
    i0: int,
)
    requires
        cmd.wf(),
        tokens.len() == 0,
        !cmd.arg_required_else_help,
        env.len() == 0,
        0 <= i0 < cmd.args.len(),
        cmd.args[i0].arg.required,
        forall|j: int| 0 <= j < i0 ==> !cmd.args[j].arg.required,
    ensures
        spec_parse(cmd, tokens, env) == OutputModel::Cat(
            CatCmdModel {
                data: spec_error_text(
                    spec_msg_required(spec_arg_display(cmd.args[i0].name, cmd.args[i0].arg)),
                ),
                exit_code: ExitCode::Error,
            },
        ),
{
    let st0 = spec_scan_init(cmd);
    assert(spec_scan(cmd, tokens, 0, st0) == Ok::<_, DiagModel>(st0));
    assert(st0.leftovers.len() == 0);
    assert(spec_lo_filter(st0.leftovers, 0, false) == Seq::<crate::matcher::LeftoverModel>::empty());
    assert(spec_lo_filter(st0.leftovers, 0, true) == Seq::<crate::matcher::LeftoverModel>::empty());
    lemma_fill_exhausted(
        cmd,
        crate::positional::spec_pos_filter(cmd, 0, false),
        0,
        st0.leftovers,
        0,
        st0.slots,
    );
    lemma_fill_exhausted(
        cmd,
        crate::positional::spec_pos_filter(cmd, 0, false),
        0,
        spec_lo_filter(st0.leftovers, 0, false),
        0,
        st0.slots,
    );
    lemma_fill_exhausted(
        cmd,
        crate::positional::spec_pos_filter(cmd, 0, true),
        0,
        spec_lo_filter(st0.leftovers, 0, true),
        0,
        st0.slots,
    );
    assert(spec_distribute(cmd, st0) == Ok::<_, DiagModel>(st0.slots));
    assert(st0.slots.len() == cmd.args.len());
    lemma_resolve_keeps_presence(cmd, st0.slots, env, 0);
    let slots2 = spec_resolve_from(cmd, st0.slots, env, 0)->Ok_0;
    assert(forall|j: int| !spec_present(st0.slots, j));
    assert(forall|j: int| !spec_present(slots2, j));
    lemma_first_required_errors(cmd, slots2, 0, i0);
    assert(spec_constraints(cmd, slots2) == Some(
        DiagModel::Error(
            spec_msg_required(spec_arg_display(cmd.args[i0].name, cmd.args[i0].arg)),
        ),
    ));
}

/// A help request short-circuits the whole run: with the implicit help
/// flag active and no argument redefining the long name `help`, the
/// single token `--help` yields the rendered help text with the success
/// exit code — no binding, constraint checking or extraction happens, so
/// no variables are computed.
pub proof fn lemma_help_short_circuits(
    cmd: CommandModel,
    tokens: Seq<Seq<char>>,
    env: Seq<EnvVarModel>,
)
    requires
        cmd.wf(),
        !cmd.disable_help_flag,
        spec_find_long(cmd, "help"@) is None,
        tokens == seq!["--help"@],
    ensures
        spec_parse(cmd, tokens, env) == OutputModel::Cat(
            CatCmdModel {
                data: crate::render::spec_help_text(cmd, true),
                exit_code: ExitCode::Success,
            },
        ),
{
    reveal_strlit("--help");
    reveal_strlit("--");
    reveal_strlit("help");
    let t = "--help"@;
    assert(tokens.len() == 1);
    assert(tokens[0] == t);
    assert(t.len() == 6);
    let st0 = spec_scan_init(cmd);
    assert(t != "--"@) by {
        assert("--"@.len() == 2);
    }
    assert(spec_is_long_token(t));
    let body = t.skip(2);
    assert(body =~= "help"@);
    assert(body.len() == 4);
    assert(spec_find_char_from(body, '=', 4) == 4);
    assert(spec_find_char_from(body, '=', 3) == 4);
    assert(spec_find_char_from(body, '=', 2) == 4);
    assert(spec_find_char_from(body, '=', 1) == 4);
    assert(spec_find_char_from(body, '=', 0) == 4);
    assert(body.take(4) =~= "help"@);
    assert(spec_handle_long(cmd, tokens, 0, st0, t) == Err::<(ScanStateModel, int), DiagModel>(
        DiagModel::Help(true),
    ));
    assert(spec_scan_step(cmd, tokens, 0, st0) == Err::<(ScanStateModel, int), DiagModel>(
        DiagModel::Help(true),
    ));
    assert(spec_scan(cmd, tokens, 0, st0) == Err::<ScanStateModel, DiagModel>(
        DiagModel::Help(true),
    ));
    assert(spec_parse(cmd, tokens, env) == spec_diag_output(cmd, DiagModel::Help(true)));
}

} // verus!
