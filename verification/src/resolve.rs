//! Environment fallback and default values.
//!
//! After binding, each argument without a command-line occurrence is
//! resolved in declaration order: an environment variable binds it if the
//! snapshot holds one (split on the value delimiter and checked like any
//! other value); otherwise its configured defaults bind it; otherwise the
//! boolean and counting actions fall back to their implicit defaults, and
//! everything else stays unbound. Command-line bindings are never touched.
use vstd::prelude::*;

use crate::binding::{
    env_lookup, env_view, slots_view, spec_env_lookup, Binding, BindingModel, EnvVar, EnvVarModel,
    ValueSource,
};
use crate::command::{ArgAction, Command, CommandModel, TypedValueParser, ValueCheck, ValueCheckModel};
use crate::diag::{arg_display, msg_invalid, spec_arg_display, spec_msg_invalid, Diag, DiagModel};
use crate::matcher::{check_all_values, spec_check_all_from};
use crate::strutil::clone_strings;
use crate::values::{spec_split, split_on};

verus! {

/// The value check an environment value runs through: a boolean flag
/// without an explicit check reads its variable through the boolean-ish
/// interpreter; everything else uses the argument's own check.
pub open spec fn spec_env_check(a: crate::command::ArgModel) -> ValueCheckModel {
    if (a.action is SetTrue || a.action is SetFalse) && a.value_check is Any {
        ValueCheckModel::Typed(TypedValueParser::Boolish)
    } else {
        a.value_check
    }
}

/// Resolves one argument's slot; see the module documentation. An
/// environment occurrence of a counting argument counts once.
pub open spec fn spec_resolve_arg(
    cmd: CommandModel,
    i: int,
    slot: Option<BindingModel>,
    env: Seq<EnvVarModel>,
) -> Result<Option<BindingModel>, DiagModel> {
    let a = cmd.args[i].arg;
    let disp = spec_arg_display(cmd.args[i].name, a);
    if slot is Some {
        Ok(slot)
    } else if a.env is Some && spec_env_lookup(env, a.env->0) is Some {
        let v = spec_env_lookup(env, a.env->0)->0;
        if a.action is Count {
            Ok(
                Some(
                    BindingModel {
                        values: Seq::empty(),
                        count: 1,
                        source: ValueSource::EnvVariable,
                    },
                ),
            )
        } else {
            let vals_raw = match a.value_delimiter {
                Some(d) => spec_split(v, d),
                None => seq![v],
            };
            match spec_check_all_from(spec_env_check(a), a.ignore_case, vals_raw, 0) {
                Err(bad) => Err(DiagModel::Error(spec_msg_invalid(bad, disp))),
                Ok(checked) => Ok(
                    Some(
                        BindingModel {
                            values: checked,
                            count: 1,
                            source: ValueSource::EnvVariable,
                        },
                    ),
                ),
            }
        }
    } else if a.default_values.len() > 0 {
        Ok(
            Some(
                BindingModel {
                    values: a.default_values,
                    count: 0,
                    source: ValueSource::DefaultValue,
                },
            ),
        )
    } else {
        match a.action {
            ArgAction::SetTrue => Ok(
                Some(
                    BindingModel {
                        values: seq!["false"@],
                        count: 0,
                        source: ValueSource::DefaultValue,
                    },
                ),
            ),
            ArgAction::SetFalse => Ok(
                Some(
                    BindingModel {
                        values: seq!["true"@],
                        count: 0,
                        source: ValueSource::DefaultValue,
                    },
                ),
            ),
            ArgAction::Count => Ok(
                Some(
                    BindingModel {
                        values: Seq::empty(),
                        count: 0,
                        source: ValueSource::DefaultValue,
                    },
                ),
            ),
            _ => Ok(None),
        }
    }
}

/// Resolves every slot from `i` on, in declaration order.
pub open spec fn spec_resolve_from(
    cmd: CommandModel,
    slots: Seq<Option<BindingModel>>,
    env: Seq<EnvVarModel>,
    i: int,
) -> Result<Seq<Option<BindingModel>>, DiagModel>
    decreases cmd.args.len() - i,
{
    if !(0 <= i < cmd.args.len()) {
        Ok(slots)
    } else {
        match spec_resolve_arg(cmd, i, if 0 <= i < slots.len() {
            slots[i]
        } else {
            None
        }, env) {
            Err(d) => Err(d),
            Ok(s) => spec_resolve_from(cmd, slots.update(i, s), env, i + 1),
        }
    }
}

/// Applies environment fallback and defaults to every unbound slot; see
/// `spec_resolve_from`.
#[verifier::loop_isolation(false)]
pub fn resolve(cmd: &Command, slots: Vec<Option<Binding>>, env: &Vec<EnvVar>) -> (r: Result<
    Vec<Option<Binding>>,
    Diag,
>)
    requires
        slots_view(slots).len() == cmd@.args.len(),
    ensures
        match r {
            Ok(s2) => spec_resolve_from(cmd@, slots_view(slots), env_view(*env), 0) == Ok::<
                _,
                DiagModel,
            >(slots_view(s2)) && slots_view(s2).len() == cmd@.args.len(),
            Err(d) => spec_resolve_from(cmd@, slots_view(slots), env_view(*env), 0) == Err::<
                Seq<Option<BindingModel>>,
                _,
            >(d@),
        },
{
    let ghost slots0 = slots_view(slots);
    let ghost envm = env_view(*env);
    let mut slots = slots;
    let mut i: usize = 0;
    while i < cmd.args.len()
        invariant
            i <= cmd.args.len(),
            slots_view(slots).len() == cmd@.args.len(),
            envm == env_view(*env),
            spec_resolve_from(cmd@, slots0, envm, 0) == spec_resolve_from(
                cmd@,
                slots_view(slots),
                envm,
                i as int,
            ),
        decreases cmd.args.len() - i,
    {
        let ghost slots_pre = slots_view(slots);
        let a = &cmd.args[i].arg;
        proof {
            assert(a@ == cmd@.args[i as int].arg);
            assert(cmd.args@[i as int].name@ == cmd@.args[i as int].name);
        }
        let bound = slots[i].is_some();
        if !bound {
            let mut looked: Option<String> = None;
            if let Some(ename) = &a.env {
                if let Some(v) = env_lookup(env, ename.as_str()) {
                    looked = Some(v.clone());
                }
            }
            match looked {
                Some(v) => {
                    let ghost v0 = v@;
                    proof {
                        assert(a@.env is Some);
                        assert(spec_env_lookup(envm, a@.env->0) == Some(v0));
                        assert(slots_pre[i as int] is None);
                    }
                    if matches!(a.action, ArgAction::Count) {
                        slots[i] = Some(
                            Binding {
                                values: Vec::new(),
                                count: 1,
                                source: ValueSource::EnvVariable,
                            },
                        );
                        proof {
                            assert(slots_view(slots)[i as int]->0.values
                                =~= Seq::<Seq<char>>::empty());
                            assert(slots_view(slots) =~~= slots_pre.update(
                                i as int,
                                spec_resolve_arg(cmd@, i as int, slots_pre[i as int], envm)->Ok_0,
                            ));
                        }
                    } else {
                        let vals_raw: Vec<String> = match a.value_delimiter {
                            Some(d) => split_on(v.as_str(), d),
                            None => {
                                let mut w: Vec<String> = Vec::new();
                                w.push(v);
                                proof {
                                    assert(w.deep_view() =~= seq![
                                        spec_env_lookup(envm, a@.env->0)->0,
                                    ]);
                                }
                                w
                            },
                        };
                        let flagish = matches!(a.action, ArgAction::SetTrue)
                            || matches!(a.action, ArgAction::SetFalse);
                        let plain = matches!(a.value_check, ValueCheck::Any);
                        let check_used: ValueCheck = if flagish && plain {
                            ValueCheck::Typed(TypedValueParser::Boolish)
                        } else {
                            a.value_check.duplicate()
                        };
                        proof {
                            assert(check_used@ == spec_env_check(a@));
                        }
                        match check_all_values(&check_used, a.ignore_case, &vals_raw) {
                            Err(bad) => {
                                let disp = arg_display(&cmd.args[i].name, a);
                                proof {
                                    assert(vals_raw.deep_view() == (match a@.value_delimiter {
                                        Some(dc) => spec_split(v0, dc),
                                        None => seq![v0],
                                    }));
                                    assert(spec_resolve_arg(
                                        cmd@,
                                        i as int,
                                        slots_pre[i as int],
                                        envm,
                                    ) == Err::<Option<BindingModel>, DiagModel>(
                                        DiagModel::Error(spec_msg_invalid(bad@, disp@)),
                                    ));
                                    assert(spec_resolve_from(cmd@, slots_pre, envm, i as int)
                                        == Err::<Seq<Option<BindingModel>>, DiagModel>(
                                        DiagModel::Error(spec_msg_invalid(bad@, disp@)),
                                    ));
                                    assert(spec_resolve_from(cmd@, slots0, envm, 0) == Err::<
                                        Seq<Option<BindingModel>>,
                                        DiagModel,
                                    >(DiagModel::Error(spec_msg_invalid(bad@, disp@))));
                                }
                                return Err(Diag::Error(msg_invalid(bad.as_str(), disp.as_str())));
                            },
                            Ok(checked) => {
                                slots[i] = Some(
                                    Binding {
                                        values: checked,
                                        count: 1,
                                        source: ValueSource::EnvVariable,
                                    },
                                );
                                proof {
                                    assert(slots_view(slots) =~~= slots_pre.update(
                                        i as int,
                                        spec_resolve_arg(
                                            cmd@,
                                            i as int,
                                            slots_pre[i as int],
                                            envm,
                                        )->Ok_0,
                                    ));
                                }
                            },
                        }
                    }
                },
                None => {
                    if a.default_values.len() > 0 {
                        slots[i] = Some(
                            Binding {
                                values: clone_strings(&a.default_values),
                                count: 0,
                                source: ValueSource::DefaultValue,
                            },
                        );
                        proof {
                            assert(slots_view(slots) =~~= slots_pre.update(
                                i as int,
                                spec_resolve_arg(cmd@, i as int, slots_pre[i as int], envm)->Ok_0,
                            ));
                        }
                    } else {
                        match a.action {
                            ArgAction::SetTrue => {
                                let mut w: Vec<String> = Vec::new();
                                w.push("false".to_owned());
                                proof {
                                    assert(w.deep_view() =~= seq!["false"@]);
                                }
                                slots[i] = Some(
                                    Binding {
                                        values: w,
                                        count: 0,
                                        source: ValueSource::DefaultValue,
                                    },
                                );
                            },
                            ArgAction::SetFalse => {
                                let mut w: Vec<String> = Vec::new();
                                w.push("true".to_owned());
                                proof {
                                    assert(w.deep_view() =~= seq!["true"@]);
                                }
                                slots[i] = Some(
                                    Binding {
                                        values: w,
                                        count: 0,
                                        source: ValueSource::DefaultValue,
                                    },
                                );
                            },
                            ArgAction::Count => {
                                slots[i] = Some(
                                    Binding {
                                        values: Vec::new(),
                                        count: 0,
                                        source: ValueSource::DefaultValue,
                                    },
                                );
                                proof {
                                    assert(slots_view(slots)[i as int]->0.values
                                        =~= Seq::<Seq<char>>::empty());
                                }
                            },
                            _ => {},
                        }
                        proof {
                            assert(slots_view(slots) =~~= slots_pre.update(
                                i as int,
                                spec_resolve_arg(cmd@, i as int, slots_pre[i as int], envm)->Ok_0,
                            ));
                        }
                    }
                },
            }
        } else {
            proof {
                assert(slots_view(slots) =~~= slots_pre.update(
                    i as int,
                    spec_resolve_arg(cmd@, i as int, slots_pre[i as int], envm)->Ok_0,
                ));
            }
        }
        i = i + 1;
    }
    Ok(slots)
}

} // verus!
