//! The result extractor: turns the resolved slots into the ordered list of
//! variables, one per bound argument, in declaration order.
//!
//! Boolean actions render their recorded literal; counting actions render
//! the occurrence count in decimal; appending arguments and set arguments
//! with a multi-value shape yield a sequence; everything else yields its
//! single value. An argument that was present without any value yields no
//! variable.
use vstd::prelude::*;

use crate::binding::{slots_view, Binding, BindingModel};
use crate::command::{ArgAction, Command, CommandModel};
use crate::output::{Var, VarModel};
use crate::strutil::{clone_strings, spec_dec, u64_to_dec};

verus! {

/// The variable produced for argument `i` bound as `b`, if any.
pub open spec fn spec_var_of(cmd: CommandModel, i: int, b: BindingModel) -> Option<VarModel> {
    let a = cmd.args[i].arg;
    let name = cmd.args[i].name;
    match a.action {
        ArgAction::SetTrue => Some(
            VarModel::Single(
                name,
                if b.values.len() > 0 {
                    b.values[0]
                } else {
                    "true"@
                },
            ),
        ),
        ArgAction::SetFalse => Some(
            VarModel::Single(
                name,
                if b.values.len() > 0 {
                    b.values[0]
                } else {
                    "false"@
                },
            ),
        ),
        ArgAction::Count => Some(VarModel::Single(name, spec_dec(b.count as nat))),
        ArgAction::Append => if b.values.len() > 0 {
            Some(VarModel::Many(name, b.values))
        } else {
            None
        },
        ArgAction::SetValue => if b.values.len() == 0 {
            None
        } else if a.spec_is_many() {
            Some(VarModel::Many(name, b.values))
        } else {
            Some(VarModel::Single(name, b.values[0]))
        },
        _ => None,
    }
}

/// The variables of all bound arguments from `i` on, in declaration
/// order.
pub open spec fn spec_extract_from(
    cmd: CommandModel,
    slots: Seq<Option<BindingModel>>,
    i: int,
) -> Seq<VarModel>
    decreases cmd.args.len() - i,
{
    if !(0 <= i < cmd.args.len()) {
        Seq::empty()
    } else {
        (if 0 <= i < slots.len() && slots[i] is Some {
            match spec_var_of(cmd, i, slots[i]->0) {
                Some(v) => seq![v],
                None => Seq::empty(),
            }
        } else {
            Seq::empty()
        }) + spec_extract_from(cmd, slots, i + 1)
    }
}

/// Extracts the ordered variable list from the resolved slots; see
/// `spec_extract_from`.
#[verifier::loop_isolation(false)]
pub fn extract(cmd: &Command, slots: &Vec<Option<Binding>>) -> (r: Vec<Var>)
    requires
        slots_view(*slots).len() == cmd@.args.len(),
    ensures
        Seq::new(r@.len(), |j: int| r@[j]@) == spec_extract_from(cmd@, slots_view(*slots), 0),
{
    let mut acc: Vec<Var> = Vec::new();
    let mut i: usize = 0;
    while i < cmd.args.len()
        invariant
            i <= cmd.args.len(),
            spec_extract_from(cmd@, slots_view(*slots), 0) =~= Seq::new(
                acc@.len(),
                |j: int| acc@[j]@,
            ) + spec_extract_from(cmd@, slots_view(*slots), i as int),
        decreases cmd.args.len() - i,
    {
        let ghost accm = Seq::new(acc@.len(), |j: int| acc@[j]@);
        let a = &cmd.args[i].arg;
        proof {
            assert(a@ == cmd@.args[i as int].arg);
            assert(cmd.args@[i as int].name@ == cmd@.args[i as int].name);
        }
        match &slots[i] {
            Some(b) => {
                proof {
                    assert(slots_view(*slots)[i as int] == Some(b@));
                }
                match a.action {
                    ArgAction::SetTrue | ArgAction::SetFalse => {
                        let v: String = if b.values.len() > 0 {
                            b.values[0].clone()
                        } else if matches!(a.action, ArgAction::SetTrue) {
                            "true".to_owned()
                        } else {
                            "false".to_owned()
                        };
                        acc.push(Var::Single(cmd.args[i].name.clone(), v));
                    },
                    ArgAction::Count => {
                        acc.push(Var::Single(cmd.args[i].name.clone(), u64_to_dec(b.count)));
                    },
                    ArgAction::Append => {
                        if b.values.len() > 0 {
                            acc.push(
                                Var::Many(cmd.args[i].name.clone(), clone_strings(&b.values)),
                            );
                        }
                    },
                    ArgAction::SetValue => {
                        if b.values.len() > 0 {
                            if cmd.args[i].arg.is_many() {
                                acc.push(
                                    Var::Many(cmd.args[i].name.clone(), clone_strings(&b.values)),
                                );
                            } else {
                                acc.push(
                                    Var::Single(cmd.args[i].name.clone(), b.values[0].clone()),
                                );
                            }
                        }
                    },
                    _ => {},
                }
            },
            None => {},
        }
        proof {
            assert(spec_extract_from(cmd@, slots_view(*slots), 0) =~= Seq::new(
                acc@.len(),
                |j: int| acc@[j]@,
            ) + spec_extract_from(cmd@, slots_view(*slots), i + 1));
        }
        i = i + 1;
    }
    acc
}

} // verus!
