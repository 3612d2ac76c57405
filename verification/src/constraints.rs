//! The constraint resolver: runs after binding and resolution, before
//! extraction.
//!
//! Presence here means a command-line or environment occurrence; a value
//! bound from a configured default never triggers or satisfies a
//! constraint. Checks run in this order, each walking the arguments in
//! declaration order, and the first violation wins: unconditional
//! `required`; `required-unless-present` (single, all, any); `requires`;
//! `conflicts-with`; and `exclusive`. An argument overridden by a present
//! argument's `overrides-with` list is removed from the conflict-check
//! presence set on both sides of a conflict rule — as the rule's owner and
//! as a named partner — while every other check, and extraction, still
//! sees it. Help and version short-circuit long before this stage and so
//! bypass every check.
use vstd::prelude::*;

use crate::binding::{slots_view, Binding, BindingModel, ValueSource};
use crate::command::{Command, CommandModel};
use crate::diag::{
    arg_display, msg_conflict, msg_exclusive, msg_required, msg_requires, spec_arg_display,
    spec_msg_conflict, spec_msg_exclusive, spec_msg_required, spec_msg_requires, Diag, DiagModel,
};
use crate::strutil::str_eq;

verus! {

/// Whether argument `i` is present by a command-line or environment
/// occurrence.
pub open spec fn spec_present(slots: Seq<Option<BindingModel>>, i: int) -> bool {
    &&& 0 <= i < slots.len()
    &&& slots[i] is Some
    &&& (slots[i]->0.source is CommandLine || slots[i]->0.source is EnvVariable)
}

/// The declaration index of the argument with the given identifier,
/// looking from `i` on.
pub open spec fn spec_find_name_from(cmd: CommandModel, name: Seq<char>, i: int) -> Option<int>
    decreases cmd.args.len() - i,
{
    if !(0 <= i < cmd.args.len()) {
        None
    } else if cmd.args[i].name == name {
        Some(i)
    } else {
        spec_find_name_from(cmd, name, i + 1)
    }
}

/// Whether the argument with the given identifier is present.
pub open spec fn spec_present_name(
    cmd: CommandModel,
    slots: Seq<Option<BindingModel>>,
    name: Seq<char>,
) -> bool {
    match spec_find_name_from(cmd, name, 0) {
        Some(i) => spec_present(slots, i),
        None => false,
    }
}

/// How the named argument is displayed in a message: its display name
/// when it exists, the identifier itself otherwise.
pub open spec fn spec_name_display(cmd: CommandModel, name: Seq<char>) -> Seq<char> {
    match spec_find_name_from(cmd, name, 0) {
        Some(j) => spec_arg_display(cmd.args[j].name, cmd.args[j].arg),
        None => name,
    }
}

/// Whether argument `i`'s required-unless condition is met: the single
/// named argument is present, or all of the all-list are present, or any
/// of the any-list is.
pub open spec fn spec_unless_met(
    cmd: CommandModel,
    slots: Seq<Option<BindingModel>>,
    i: int,
) -> bool {
    let a = cmd.args[i].arg;
    ||| (a.required_unless_present is Some && spec_present_name(
        cmd,
        slots,
        a.required_unless_present->0,
    ))
    ||| (a.required_unless_present_all.len() > 0 && forall|j: int|
        0 <= j < a.required_unless_present_all.len() ==> spec_present_name(
            cmd,
            slots,
            #[trigger] a.required_unless_present_all[j],
        ))
    ||| (exists|j: int|
        0 <= j < a.required_unless_present_any.len() && spec_present_name(
            cmd,
            slots,
            #[trigger] a.required_unless_present_any[j],
        ))
}

/// Whether argument `i` carries any required-unless condition.
pub open spec fn spec_has_unless(cmd: CommandModel, i: int) -> bool {
    let a = cmd.args[i].arg;
    ||| a.required_unless_present is Some
    ||| a.required_unless_present_all.len() > 0
    ||| a.required_unless_present_any.len() > 0
}

/// The first unconditionally required argument from `i` on that is not
/// present.
pub open spec fn spec_check_required_from(
    cmd: CommandModel,
    slots: Seq<Option<BindingModel>>,
    i: int,
) -> Option<DiagModel>
    decreases cmd.args.len() - i,
{
    if !(0 <= i < cmd.args.len()) {
        None
    } else if cmd.args[i].arg.required && !spec_present(slots, i) {
        Some(
            DiagModel::Error(
                spec_msg_required(spec_arg_display(cmd.args[i].name, cmd.args[i].arg)),
            ),
        )
    } else {
        spec_check_required_from(cmd, slots, i + 1)
    }
}

/// The first conditionally required argument from `i` on that is absent
/// while its condition is unmet.
pub open spec fn spec_check_unless_from(
    cmd: CommandModel,
    slots: Seq<Option<BindingModel>>,
    i: int,
) -> Option<DiagModel>
    decreases cmd.args.len() - i,
{
    if !(0 <= i < cmd.args.len()) {
        None
    } else if spec_has_unless(cmd, i) && !spec_present(slots, i) && !spec_unless_met(
        cmd,
        slots,
        i,
    ) {
        Some(
            DiagModel::Error(
                spec_msg_required(spec_arg_display(cmd.args[i].name, cmd.args[i].arg)),
            ),
        )
    } else {
        spec_check_unless_from(cmd, slots, i + 1)
    }
}

/// The first present argument from `i` on whose named requirement is
/// absent.
pub open spec fn spec_check_requires_from(
    cmd: CommandModel,
    slots: Seq<Option<BindingModel>>,
    i: int,
) -> Option<DiagModel>
    decreases cmd.args.len() - i,
{
    if !(0 <= i < cmd.args.len()) {
        None
    } else if spec_present(slots, i) && cmd.args[i].arg.requires is Some && !spec_present_name(
        cmd,
        slots,
        cmd.args[i].arg.requires->0,
    ) {
        Some(
            DiagModel::Error(
                spec_msg_requires(
                    spec_arg_display(cmd.args[i].name, cmd.args[i].arg),
                    spec_name_display(cmd, cmd.args[i].arg.requires->0),
                ),
            ),
        )
    } else {
        spec_check_requires_from(cmd, slots, i + 1)
    }
}

/// Whether argument `j` is removed from the conflict-check presence set:
/// some other present argument's overrides list names it.
pub open spec fn spec_overridden(
    cmd: CommandModel,
    slots: Seq<Option<BindingModel>>,
    j: int,
) -> bool {
    exists|k: int|
        0 <= k < cmd.args.len() && k != j && spec_present(slots, k)
            && (#[trigger] cmd.args[k].arg.overrides_with).contains(cmd.args[j].name)
}

/// The first conflicting partner of present argument `i` among its
/// conflict list entries from `l` on.
pub open spec fn spec_conflict_list_from(
    cmd: CommandModel,
    slots: Seq<Option<BindingModel>>,
    i: int,
    l: int,
) -> Option<DiagModel>
    decreases cmd.args[i].arg.conflicts_with.len() - l,
{
    let lst = cmd.args[i].arg.conflicts_with;
    if !(0 <= l < lst.len()) {
        None
    } else {
        match spec_find_name_from(cmd, lst[l], 0) {
            Some(j) => if j != i && spec_present(slots, j) && !spec_overridden(cmd, slots, j) {
                Some(
                    DiagModel::Error(
                        spec_msg_conflict(
                            spec_arg_display(cmd.args[i].name, cmd.args[i].arg),
                            spec_arg_display(cmd.args[j].name, cmd.args[j].arg),
                        ),
                    ),
                )
            } else {
                spec_conflict_list_from(cmd, slots, i, l + 1)
            },
            None => spec_conflict_list_from(cmd, slots, i, l + 1),
        }
    }
}

/// The first conflict violation from argument `i` on. An overridden
/// argument's own conflict rules are not evaluated at all: the override
/// removes it from the conflict-check presence set as owner, just as
/// `spec_conflict_list_from` removes it as a named partner.
pub open spec fn spec_check_conflicts_from(
    cmd: CommandModel,
    slots: Seq<Option<BindingModel>>,
    i: int,
) -> Option<DiagModel>
    decreases cmd.args.len() - i,
{
    if !(0 <= i < cmd.args.len()) {
        None
    } else if spec_present(slots, i) && !spec_overridden(cmd, slots, i) {
        match spec_conflict_list_from(cmd, slots, i, 0) {
            Some(d) => Some(d),
            None => spec_check_conflicts_from(cmd, slots, i + 1),
        }
    } else {
        spec_check_conflicts_from(cmd, slots, i + 1)
    }
}

/// Whether some argument other than `i` is present.
pub open spec fn spec_other_present(
    cmd: CommandModel,
    slots: Seq<Option<BindingModel>>,
    i: int,
) -> bool {
    exists|j: int| 0 <= j < cmd.args.len() && j != i && spec_present(slots, j)
}

/// The first present exclusive argument from `i` on that stands beside
/// another present argument.
pub open spec fn spec_check_exclusive_from(
    cmd: CommandModel,
    slots: Seq<Option<BindingModel>>,
    i: int,
) -> Option<DiagModel>
    decreases cmd.args.len() - i,
{
    if !(0 <= i < cmd.args.len()) {
        None
    } else if spec_present(slots, i) && cmd.args[i].arg.exclusive && spec_other_present(
        cmd,
        slots,
        i,
    ) {
        Some(
            DiagModel::Error(
                spec_msg_exclusive(spec_arg_display(cmd.args[i].name, cmd.args[i].arg)),
            ),
        )
    } else {
        spec_check_exclusive_from(cmd, slots, i + 1)
    }
}

/// The first constraint violation, in check order; `None` when all
/// constraints hold.
pub open spec fn spec_constraints(
    cmd: CommandModel,
    slots: Seq<Option<BindingModel>>,
) -> Option<DiagModel> {
    match spec_check_required_from(cmd, slots, 0) {
        Some(d) => Some(d),
        None => match spec_check_unless_from(cmd, slots, 0) {
            Some(d) => Some(d),
            None => match spec_check_requires_from(cmd, slots, 0) {
                Some(d) => Some(d),
                None => match spec_check_conflicts_from(cmd, slots, 0) {
                    Some(d) => Some(d),
                    None => spec_check_exclusive_from(cmd, slots, 0),
                },
            },
        },
    }
}

/// Whether slot `i` holds a command-line or environment occurrence.
fn is_present(slots: &Vec<Option<Binding>>, i: usize) -> (r: bool)
    requires
        i < slots.len(),
    ensures
        r == spec_present(slots_view(*slots), i as int),
{
    match &slots[i] {
        Some(b) => match b.source {
            ValueSource::CommandLine | ValueSource::EnvVariable => true,
            ValueSource::DefaultValue => false,
        },
        None => false,
    }
}

impl Command {
    /// The declaration index of the argument with the given identifier.
    pub fn find_name(&self, name: &str) -> (r: Option<usize>)
        ensures
            match r {
                Some(i) => spec_find_name_from(self@, name@, 0) == Some(i as int) && i
                    < self.args.len(),
                None => spec_find_name_from(self@, name@, 0) is None,
            },
    {
        let mut i: usize = 0;
        while i < self.args.len()
            invariant
                i <= self.args.len(),
                spec_find_name_from(self@, name@, 0) == spec_find_name_from(
                    self@,
                    name@,
                    i as int,
                ),
            decreases self.args.len() - i,
        {
            if str_eq(self.args[i].name.as_str(), name) {
                return Some(i);
            }
            i = i + 1;
        }
        None
    }
}

/// Whether the named argument is present.
fn present_name(cmd: &Command, slots: &Vec<Option<Binding>>, name: &str) -> (r: bool)
    requires
        slots_view(*slots).len() == cmd@.args.len(),
    ensures
        r == spec_present_name(cmd@, slots_view(*slots), name@),
{
    match cmd.find_name(name) {
        Some(i) => is_present(slots, i),
        None => false,
    }
}

/// The display text for the named argument in a message.
fn name_display(cmd: &Command, name: &str) -> (r: String)
    ensures
        r@ == spec_name_display(cmd@, name@),
{
    match cmd.find_name(name) {
        Some(j) => arg_display(&cmd.args[j].name, &cmd.args[j].arg),
        None => name.to_owned(),
    }
}

/// Whether argument `j` is overridden by another present argument.
fn overridden(cmd: &Command, slots: &Vec<Option<Binding>>, j: usize) -> (r: bool)
    requires
        slots_view(*slots).len() == cmd@.args.len(),
        j < cmd.args.len(),
    ensures
        r == spec_overridden(cmd@, slots_view(*slots), j as int),
{
    let mut k: usize = 0;
    while k < cmd.args.len()
        invariant
            k <= cmd.args.len(),
            slots_view(*slots).len() == cmd@.args.len(),
            j < cmd.args.len(),
            forall|m: int|
                0 <= m < k ==> !(m != j && spec_present(slots_view(*slots), m)
                    && (#[trigger] cmd@.args[m].arg.overrides_with).contains(
                    cmd@.args[j as int].name,
                )),
        decreases cmd.args.len() - k,
    {
        if k != j && is_present(slots, k) && crate::strutil::vec_contains_str(
            &cmd.args[k].arg.overrides_with,
            cmd.args[j].name.as_str(),
        ) {
            proof {
                assert(cmd@.args[k as int].arg.overrides_with.contains(cmd@.args[j as int].name));
            }
            return true;
        }
        k = k + 1;
    }
    false
}

/// Whether some argument other than `i` is present.
fn other_present(cmd: &Command, slots: &Vec<Option<Binding>>, i: usize) -> (r: bool)
    requires
        slots_view(*slots).len() == cmd@.args.len(),
    ensures
        r == spec_other_present(cmd@, slots_view(*slots), i as int),
{
    let mut j: usize = 0;
    while j < cmd.args.len()
        invariant
            j <= cmd.args.len(),
            slots_view(*slots).len() == cmd@.args.len(),
            forall|m: int|
                0 <= m < j ==> !(m != i as int && spec_present(slots_view(*slots), m)),
        decreases cmd.args.len() - j,
    {
        if j != i && is_present(slots, j) {
            return true;
        }
        j = j + 1;
    }
    false
}

/// Whether argument `i`'s required-unless condition is met.
#[verifier::loop_isolation(false)]
fn unless_met(cmd: &Command, slots: &Vec<Option<Binding>>, i: usize) -> (r: bool)
    requires
        slots_view(*slots).len() == cmd@.args.len(),
        i < cmd.args.len(),
    ensures
        r == spec_unless_met(cmd@, slots_view(*slots), i as int),
{
    let a = &cmd.args[i].arg;
    proof {
        assert(a@ == cmd@.args[i as int].arg);
    }
    if let Some(n) = &a.required_unless_present {
        if present_name(cmd, slots, n.as_str()) {
            return true;
        }
    }
    let mut all_ok = a.required_unless_present_all.len() > 0;
    let mut j: usize = 0;
    while j < a.required_unless_present_all.len()
        invariant
            j <= a.required_unless_present_all.len(),
            a@ == cmd@.args[i as int].arg,
            slots_view(*slots).len() == cmd@.args.len(),
            all_ok == (a.required_unless_present_all.len() > 0 && forall|m: int|
                0 <= m < j ==> spec_present_name(
                    cmd@,
                    slots_view(*slots),
                    #[trigger] a@.required_unless_present_all[m],
                )),
        decreases a.required_unless_present_all.len() - j,
    {
        if present_name(cmd, slots, a.required_unless_present_all[j].as_str()) {
            proof {
                assert(spec_present_name(
                    cmd@,
                    slots_view(*slots),
                    a@.required_unless_present_all[j as int],
                ));
            }
        } else {
            proof {
                assert(!spec_present_name(
                    cmd@,
                    slots_view(*slots),
                    a@.required_unless_present_all[j as int],
                ));
            }
            all_ok = false;
        }
        j = j + 1;
    }
    if all_ok {
        proof {
            assert(a@.required_unless_present_all.len() > 0);
            assert(forall|m: int|
                0 <= m < a@.required_unless_present_all.len() ==> spec_present_name(
                    cmd@,
                    slots_view(*slots),
                    #[trigger] a@.required_unless_present_all[m],
                ));
            assert(spec_unless_met(cmd@, slots_view(*slots), i as int));
        }
        return true;
    }
    let mut k: usize = 0;
    while k < a.required_unless_present_any.len()
        invariant
            k <= a.required_unless_present_any.len(),
            a@ == cmd@.args[i as int].arg,
            slots_view(*slots).len() == cmd@.args.len(),
            forall|m: int|
                0 <= m < k ==> !spec_present_name(
                    cmd@,
                    slots_view(*slots),
                    #[trigger] a@.required_unless_present_any[m],
                ),
        decreases a.required_unless_present_any.len() - k,
    {
        if present_name(cmd, slots, a.required_unless_present_any[k].as_str()) {
            proof {
                assert(spec_present_name(
                    cmd@,
                    slots_view(*slots),
                    a@.required_unless_present_any[k as int],
                ));
            }
            return true;
        }
        k = k + 1;
    }
    false
}

/// The first conflicting partner of present argument `i`.
#[verifier::loop_isolation(false)]
fn conflict_list(cmd: &Command, slots: &Vec<Option<Binding>>, i: usize) -> (r: Option<Diag>)
    requires
        slots_view(*slots).len() == cmd@.args.len(),
        i < cmd.args.len(),
    ensures
        match r {
            Some(d) => spec_conflict_list_from(cmd@, slots_view(*slots), i as int, 0) == Some(
                d@,
            ),
            None => spec_conflict_list_from(cmd@, slots_view(*slots), i as int, 0) is None,
        },
{
    let a = &cmd.args[i].arg;
    proof {
        assert(a@ == cmd@.args[i as int].arg);
    }
    let mut l: usize = 0;
    while l < a.conflicts_with.len()
        invariant
            l <= a.conflicts_with.len(),
            a@ == cmd@.args[i as int].arg,
            i < cmd.args.len(),
            slots_view(*slots).len() == cmd@.args.len(),
            spec_conflict_list_from(cmd@, slots_view(*slots), i as int, 0)
                == spec_conflict_list_from(cmd@, slots_view(*slots), i as int, l as int),
        decreases a.conflicts_with.len() - l,
    {
        match cmd.find_name(a.conflicts_with[l].as_str()) {
            Some(j) => {
                if j != i && is_present(slots, j) && !overridden(cmd, slots, j) {
                    let di = arg_display(&cmd.args[i].name, &cmd.args[i].arg);
                    let dj = arg_display(&cmd.args[j].name, &cmd.args[j].arg);
                    return Some(Diag::Error(msg_conflict(di.as_str(), dj.as_str())));
                }
            },
            None => {},
        }
        l = l + 1;
    }
    None
}

/// Checks every constraint over the resolved slots; see
/// `spec_constraints`.
#[verifier::loop_isolation(false)]
pub fn check_constraints(cmd: &Command, slots: &Vec<Option<Binding>>) -> (r: Option<Diag>)
    requires
        slots_view(*slots).len() == cmd@.args.len(),
    ensures
        match r {
            Some(d) => spec_constraints(cmd@, slots_view(*slots)) == Some(d@),
            None => spec_constraints(cmd@, slots_view(*slots)) is None,
        },
{
    let mut i: usize = 0;
    while i < cmd.args.len()
        invariant
            i <= cmd.args.len(),
            slots_view(*slots).len() == cmd@.args.len(),
            spec_check_required_from(cmd@, slots_view(*slots), 0) == spec_check_required_from(
                cmd@,
                slots_view(*slots),
                i as int,
            ),
        decreases cmd.args.len() - i,
    {
        if cmd.args[i].arg.required && !is_present(slots, i) {
            let disp = arg_display(&cmd.args[i].name, &cmd.args[i].arg);
            return Some(Diag::Error(msg_required(disp.as_str())));
        }
        i = i + 1;
    }
    let mut i2: usize = 0;
    while i2 < cmd.args.len()
        invariant
            i2 <= cmd.args.len(),
            slots_view(*slots).len() == cmd@.args.len(),
            spec_check_required_from(cmd@, slots_view(*slots), 0) is None,
            spec_check_unless_from(cmd@, slots_view(*slots), 0) == spec_check_unless_from(
                cmd@,
                slots_view(*slots),
                i2 as int,
            ),
        decreases cmd.args.len() - i2,
    {
        let a = &cmd.args[i2].arg;
        let has_unless = a.required_unless_present.is_some()
            || a.required_unless_present_all.len() > 0 || a.required_unless_present_any.len() > 0;
        if has_unless && !is_present(slots, i2) && !unless_met(cmd, slots, i2) {
            let disp = arg_display(&cmd.args[i2].name, &cmd.args[i2].arg);
            return Some(Diag::Error(msg_required(disp.as_str())));
        }
        i2 = i2 + 1;
    }
    let mut i3: usize = 0;
    while i3 < cmd.args.len()
        invariant
            i3 <= cmd.args.len(),
            slots_view(*slots).len() == cmd@.args.len(),
            spec_check_required_from(cmd@, slots_view(*slots), 0) is None,
            spec_check_unless_from(cmd@, slots_view(*slots), 0) is None,
            spec_check_requires_from(cmd@, slots_view(*slots), 0) == spec_check_requires_from(
                cmd@,
                slots_view(*slots),
                i3 as int,
            ),
        decreases cmd.args.len() - i3,
    {
        let a = &cmd.args[i3].arg;
        if is_present(slots, i3) {
            if let Some(req) = &a.requires {
                if !present_name(cmd, slots, req.as_str()) {
                    let di = arg_display(&cmd.args[i3].name, &cmd.args[i3].arg);
                    let dreq = name_display(cmd, req.as_str());
                    return Some(Diag::Error(msg_requires(di.as_str(), dreq.as_str())));
                }
            }
        }
        i3 = i3 + 1;
    }
    let mut i4: usize = 0;
    while i4 < cmd.args.len()
        invariant
            i4 <= cmd.args.len(),
            slots_view(*slots).len() == cmd@.args.len(),
            spec_check_required_from(cmd@, slots_view(*slots), 0) is None,
            spec_check_unless_from(cmd@, slots_view(*slots), 0) is None,
            spec_check_requires_from(cmd@, slots_view(*slots), 0) is None,
            spec_check_conflicts_from(cmd@, slots_view(*slots), 0) == spec_check_conflicts_from(
                cmd@,
                slots_view(*slots),
                i4 as int,
            ),
        decreases cmd.args.len() - i4,
    {
        if is_present(slots, i4) && !overridden(cmd, slots, i4) {
            match conflict_list(cmd, slots, i4) {
                Some(d) => {
                    return Some(d);
                },
                None => {},
            }
        }
        i4 = i4 + 1;
    }
    let mut i5: usize = 0;
    while i5 < cmd.args.len()
        invariant
            i5 <= cmd.args.len(),
            slots_view(*slots).len() == cmd@.args.len(),
            spec_check_required_from(cmd@, slots_view(*slots), 0) is None,
            spec_check_unless_from(cmd@, slots_view(*slots), 0) is None,
            spec_check_requires_from(cmd@, slots_view(*slots), 0) is None,
            spec_check_conflicts_from(cmd@, slots_view(*slots), 0) is None,
            spec_check_exclusive_from(cmd@, slots_view(*slots), 0) == spec_check_exclusive_from(
                cmd@,
                slots_view(*slots),
                i5 as int,
            ),
        decreases cmd.args.len() - i5,
    {
        if is_present(slots, i5) && cmd.args[i5].arg.exclusive && other_present(cmd, slots, i5) {
            let disp = arg_display(&cmd.args[i5].name, &cmd.args[i5].arg);
            return Some(Diag::Error(msg_exclusive(disp.as_str())));
        }
        i5 = i5 + 1;
    }
    None
}

} // verus!
