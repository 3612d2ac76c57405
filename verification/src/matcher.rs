//! The token-matching engine: walks the raw tokens once, binds option
//! occurrences to arguments, collects the remaining value-like tokens for
//! positional binding, and short-circuits on help and version actions.
//!
//! The walk is specified as a step function folded over the token list; the
//! executable scanner is proved equal to that fold.
use vstd::prelude::*;

use crate::binding::{slots_view, spec_sat_inc, sat_inc, new_slots, Binding, BindingModel, ValueSource};
use crate::command::{ArgAction, Command, CommandModel};
use crate::diag::{
    arg_display, msg_ambiguous, msg_duplicate, msg_equals, msg_few_values, msg_invalid,
    msg_missing_value, msg_too_many, msg_unexpected, msg_unknown_short, spec_arg_display,
    spec_msg_ambiguous, spec_msg_duplicate, spec_msg_equals, spec_msg_few_values,
    spec_msg_invalid, spec_msg_missing_value, spec_msg_too_many, spec_msg_unexpected,
    spec_msg_unknown_short, Diag, DiagModel,
};
use crate::strutil::str_eq;
use crate::values::{
    check_value, is_neg_number, spec_check_value, spec_is_neg_number, spec_split, split_on,
};

verus! {

/// A token not consumed by any option: a candidate positional value, with a
/// mark saying whether it stood after the explicit separator.
#[derive(Debug)]
pub struct Leftover {
    pub value: String,
    pub after_sep: bool,
}

/// The mathematical value of a `Leftover`.
#[verifier::ext_equal]
pub struct LeftoverModel {
    pub value: Seq<char>,
    pub after_sep: bool,
}

impl View for Leftover {
    type V = LeftoverModel;

    open spec fn view(&self) -> LeftoverModel {
        LeftoverModel { value: self.value@, after_sep: self.after_sep }
    }
}

/// The scanner's state: one slot per argument for command-line bindings,
/// the leftover tokens in order, and the two mode switches (after the
/// separator; trailing catch-all absorption active).
pub struct ScanState {
    pub slots: Vec<Option<Binding>>,
    pub leftovers: Vec<Leftover>,
    pub saw_sep: bool,
    pub raw_mode: bool,
}

/// The mathematical value of a `ScanState`.
#[verifier::ext_equal]
pub struct ScanStateModel {
    pub slots: Seq<Option<BindingModel>>,
    pub leftovers: Seq<LeftoverModel>,
    pub saw_sep: bool,
    pub raw_mode: bool,
}

impl View for ScanState {
    type V = ScanStateModel;

    open spec fn view(&self) -> ScanStateModel {
        ScanStateModel {
            slots: slots_view(self.slots),
            leftovers: Seq::new(self.leftovers@.len(), |i: int| self.leftovers@[i]@),
            saw_sep: self.saw_sep,
            raw_mode: self.raw_mode,
        }
    }
}

/// An option-shaped token: a hyphen followed by at least one more
/// character.
pub open spec fn spec_is_option_like(t: Seq<char>) -> bool {
    t.len() >= 2 && t[0] == '-'
}

/// A long-option token: two hyphens and a non-empty rest.
pub open spec fn spec_is_long_token(t: Seq<char>) -> bool {
    t.len() > 2 && t[0] == '-' && t[1] == '-'
}

/// A short-option token: one hyphen and a rest not itself starting with a
/// hyphen.
pub open spec fn spec_is_short_token(t: Seq<char>) -> bool {
    t.len() >= 2 && t[0] == '-' && t[1] != '-'
}

/// The index of the first occurrence of `c` in `s` at or after `j`, or the
/// length of `s`.
pub open spec fn spec_find_char_from(s: Seq<char>, c: char, j: int) -> int
    decreases s.len() - j,
{
    if !(0 <= j < s.len()) {
        s.len() as int
    } else if s[j] == c {
        j
    } else {
        spec_find_char_from(s, c, j + 1)
    }
}

/// The declaration index of the first argument matching short letter `c`,
/// looking from `i` on.
pub open spec fn spec_find_short_from(cmd: CommandModel, c: char, i: int) -> Option<int>
    decreases cmd.args.len() - i,
{
    if !(0 <= i < cmd.args.len()) {
        None
    } else if cmd.args[i].arg.has_short(c) {
        Some(i)
    } else {
        spec_find_short_from(cmd, c, i + 1)
    }
}

/// The declaration index of the first argument matching short letter `c`.
pub open spec fn spec_find_short(cmd: CommandModel, c: char) -> Option<int> {
    spec_find_short_from(cmd, c, 0)
}

/// The declaration index of the first argument matching long name `name`,
/// looking from `i` on.
pub open spec fn spec_find_long_from(cmd: CommandModel, name: Seq<char>, i: int) -> Option<int>
    decreases cmd.args.len() - i,
{
    if !(0 <= i < cmd.args.len()) {
        None
    } else if cmd.args[i].arg.has_long(name) {
        Some(i)
    } else {
        spec_find_long_from(cmd, name, i + 1)
    }
}

/// The declaration index of the first argument matching long name `name`.
pub open spec fn spec_find_long(cmd: CommandModel, name: Seq<char>) -> Option<int> {
    spec_find_long_from(cmd, name, 0)
}

/// How many arguments from `i` on have a long name or alias with prefix
/// `p`.
pub open spec fn spec_count_prefix_from(cmd: CommandModel, p: Seq<char>, i: int) -> nat
    decreases cmd.args.len() - i,
{
    if !(0 <= i < cmd.args.len()) {
        0
    } else {
        spec_count_prefix_from(cmd, p, i + 1) + (if cmd.args[i].arg.has_long_prefix(p) {
            1nat
        } else {
            0nat
        })
    }
}

/// The declaration index of the first argument with a long name or alias
/// with prefix `p`, looking from `i` on.
pub open spec fn spec_find_prefix_from(cmd: CommandModel, p: Seq<char>, i: int) -> Option<int>
    decreases cmd.args.len() - i,
{
    if !(0 <= i < cmd.args.len()) {
        None
    } else if cmd.args[i].arg.has_long_prefix(p) {
        Some(i)
    } else {
        spec_find_prefix_from(cmd, p, i + 1)
    }
}

/// Whether some argument admits negative-number tokens as values.
pub open spec fn spec_any_neg_from(cmd: CommandModel, i: int) -> bool
    decreases cmd.args.len() - i,
{
    if !(0 <= i < cmd.args.len()) {
        false
    } else {
        cmd.args[i].arg.allow_negative_numbers || spec_any_neg_from(cmd, i + 1)
    }
}

/// Whether some positional argument admits hyphen values: an unresolved
/// option-shaped token then binds by position instead of being an error.
pub open spec fn spec_any_hyphen_pos_from(cmd: CommandModel, i: int) -> bool
    decreases cmd.args.len() - i,
{
    if !(0 <= i < cmd.args.len()) {
        false
    } else {
        (cmd.args[i].arg.is_positional() && cmd.args[i].arg.allow_hyphen_values)
            || spec_any_hyphen_pos_from(cmd, i + 1)
    }
}

/// Whether the implicit version flags are active: some version string is
/// configured and the flag is not disabled.
pub open spec fn spec_version_enabled(cmd: CommandModel) -> bool {
    !cmd.disable_version_flag && (cmd.version is Some || cmd.long_version is Some)
}

/// The number of leftover tokens that the positionals before the trailing
/// catch-all can absorb at most; `None` when no trailing catch-all exists.
/// Once that many leftovers have arrived, every further token is taken
/// verbatim.
pub open spec fn spec_trailing_threshold_from(cmd: CommandModel, i: int) -> Option<nat>
    decreases cmd.args.len() - i,
{
    if !(0 <= i < cmd.args.len()) {
        None
    } else if cmd.args[i].arg.is_positional() && cmd.args[i].arg.trailing_var_arg {
        Some(0)
    } else if cmd.args[i].arg.is_positional() {
        match spec_trailing_threshold_from(cmd, i + 1) {
            Some(t) => Some(crate::binding::spec_sat_add(t, cmd.args[i].arg.max_values())),
            None => None,
        }
    } else {
        spec_trailing_threshold_from(cmd, i + 1)
    }
}

/// See `spec_trailing_threshold_from`, for the whole argument list.
pub open spec fn spec_trailing_threshold(cmd: CommandModel) -> Option<nat> {
    spec_trailing_threshold_from(cmd, 0)
}

impl Command {
    /// The first argument matching the short letter `c`.
    pub fn find_short(&self, c: char) -> (r: Option<usize>)
        ensures
            match r {
                Some(i) => spec_find_short(self@, c) == Some(i as int) && i < self.args.len(),
                None => spec_find_short(self@, c) is None,
            },
    {
        let mut i: usize = 0;
        while i < self.args.len()
            invariant
                i <= self.args.len(),
                spec_find_short(self@, c) == spec_find_short_from(self@, c, i as int),
            decreases self.args.len() - i,
        {
            if self.args[i].arg.matches_short(c) {
                return Some(i);
            }
            i = i + 1;
        }
        None
    }

    /// The first argument matching the long name `name`.
    pub fn find_long(&self, name: &str) -> (r: Option<usize>)
        ensures
            match r {
                Some(i) => spec_find_long(self@, name@) == Some(i as int) && i < self.args.len(),
                None => spec_find_long(self@, name@) is None,
            },
    {
        let mut i: usize = 0;
        while i < self.args.len()
            invariant
                i <= self.args.len(),
                spec_find_long(self@, name@) == spec_find_long_from(self@, name@, i as int),
            decreases self.args.len() - i,
        {
            if self.args[i].arg.matches_long(name) {
                return Some(i);
            }
            i = i + 1;
        }
        None
    }

    /// How many arguments have a long name or alias with prefix `p`, and
    /// the first of them.
    pub fn find_prefix(&self, p: &str) -> (r: (usize, Option<usize>))
        ensures
            r.0 as nat == spec_count_prefix_from(self@, p@, 0),
            match r.1 {
                Some(i) => spec_find_prefix_from(self@, p@, 0) == Some(i as int) && i
                    < self.args.len(),
                None => spec_find_prefix_from(self@, p@, 0) is None,
            },
    {
        let n = self.args.len();
        let mut count: usize = 0;
        let mut first: Option<usize> = None;
        let mut i: usize = n;
        while i > 0
            invariant
                i <= n,
                n == self.args.len(),
                count as nat == spec_count_prefix_from(self@, p@, i as int),
                match first {
                    Some(f) => spec_find_prefix_from(self@, p@, i as int) == Some(f as int) && f
                        < n,
                    None => spec_find_prefix_from(self@, p@, i as int) is None,
                },
            decreases i,
        {
            i = i - 1;
            if self.matches_long_prefix(i, p) {
                count = crate::binding::sat_add(count, 1);
                first = Some(i);
                proof {
                    assert(count as nat == spec_count_prefix_from(self@, p@, i as int)) by {
                        assert(spec_count_prefix_from(self@, p@, i as int)
                            == spec_count_prefix_from(self@, p@, i + 1) + 1);
                        assert(spec_count_prefix_from(self@, p@, i + 1) < usize::MAX) by {
                            crate::matcher::lemma_count_prefix_bound(self@, p@, i + 1);
                        }
                    }
                }
            }
        }
        (count, first)
    }

    /// Whether argument `i`'s long name or one of its aliases starts with
    /// `p`.
    fn matches_long_prefix(&self, i: usize, p: &str) -> (r: bool)
        requires
            i < self.args.len(),
        ensures
            r == self@.args[i as int].arg.has_long_prefix(p@),
    {
        let a = &self.args[i].arg;
        proof {
            assert(a@ == self@.args[i as int].arg);
        }
        if let Some(l) = &a.long {
            if crate::strutil::str_is_prefix(p, l.as_str()) {
                proof {
                    assert(a@.long is Some && p@.is_prefix_of(a@.long->0));
                }
                return true;
            }
        }
        let mut j: usize = 0;
        while j < a.aliases.len()
            invariant
                j <= a.aliases.len(),
                a@ == self@.args[i as int].arg,
                forall|k: int| 0 <= k < j ==> !p@.is_prefix_of(#[trigger] a@.aliases[k]),
            decreases a.aliases.len() - j,
        {
            if crate::strutil::str_is_prefix(p, a.aliases[j].as_str()) {
                proof {
                    assert(p@.is_prefix_of(a@.aliases[j as int]));
                }
                return true;
            }
            j = j + 1;
        }
        let mut k: usize = 0;
        while k < a.visible_aliases.len()
            invariant
                k <= a.visible_aliases.len(),
                a@ == self@.args[i as int].arg,
                forall|m: int| 0 <= m < k ==> !p@.is_prefix_of(#[trigger] a@.visible_aliases[m]),
                forall|m: int|
                    0 <= m < a@.aliases.len() ==> !p@.is_prefix_of(#[trigger] a@.aliases[m]),
                !(a@.long is Some && p@.is_prefix_of(a@.long->0)),
            decreases a.visible_aliases.len() - k,
        {
            if crate::strutil::str_is_prefix(p, a.visible_aliases[k].as_str()) {
                proof {
                    assert(p@.is_prefix_of(a@.visible_aliases[k as int]));
                }
                return true;
            }
            k = k + 1;
        }
        false
    }

    /// Whether some argument admits negative-number tokens.
    pub fn any_negative_allowed(&self) -> (r: bool)
        ensures
            r == spec_any_neg_from(self@, 0),
    {
        let mut i: usize = self.args.len();
        let mut r = false;
        while i > 0
            invariant
                i <= self.args.len(),
                r == spec_any_neg_from(self@, i as int),
            decreases i,
        {
            i = i - 1;
            if self.args[i].arg.allow_negative_numbers {
                r = true;
            } else {
                proof {
                    assert(spec_any_neg_from(self@, i as int) == spec_any_neg_from(
                        self@,
                        i + 1,
                    ));
                }
            }
        }
        r
    }

    /// Whether some positional argument admits hyphen values.
    pub fn any_hyphen_positional(&self) -> (r: bool)
        ensures
            r == spec_any_hyphen_pos_from(self@, 0),
    {
        let mut i: usize = self.args.len();
        let mut r = false;
        while i > 0
            invariant
                i <= self.args.len(),
                r == spec_any_hyphen_pos_from(self@, i as int),
            decreases i,
        {
            i = i - 1;
            let a = &self.args[i].arg;
            if a.is_positional() && a.allow_hyphen_values {
                r = true;
            }
        }
        r
    }

    /// Whether the implicit version flags are active.
    pub fn version_enabled(&self) -> (r: bool)
        ensures
            r == spec_version_enabled(self@),
    {
        !self.disable_version_flag && (self.version.is_some() || self.long_version.is_some())
    }

    /// The trailing catch-all threshold; see `spec_trailing_threshold`.
    pub fn trailing_threshold(&self) -> (r: Option<usize>)
        ensures
            match r {
                Some(t) => spec_trailing_threshold(self@) == Some(t as nat),
                None => spec_trailing_threshold(self@) is None,
            },
    {
        let mut i: usize = self.args.len();
        let mut r: Option<usize> = None;
        while i > 0
            invariant
                i <= self.args.len(),
                match r {
                    Some(t) => spec_trailing_threshold_from(self@, i as int) == Some(t as nat),
                    None => spec_trailing_threshold_from(self@, i as int) is None,
                },
            decreases i,
        {
            i = i - 1;
            let a = &self.args[i].arg;
            if a.is_positional() && a.trailing_var_arg {
                r = Some(0);
            } else if a.is_positional() {
                r = match r {
                    Some(t) => Some(crate::binding::sat_add(t, a.max_values())),
                    None => None,
                };
            }
        }
        r
    }
}

/// Whether a token may be consumed as a value: value-shaped tokens always,
/// option-shaped ones only for arguments that admit hyphen values (never
/// the bare separator) or negative numbers.
pub open spec fn spec_consumable(t: Seq<char>, allow_hyphen: bool, allow_neg: bool) -> bool {
    ||| !spec_is_option_like(t)
    ||| (allow_neg && spec_is_neg_number(t))
    ||| (allow_hyphen && t != "--"@)
}

/// The raw tokens one occurrence consumes from position `j` on, and the
/// position after them: up to `room` consumable tokens, stopping early at
/// the value terminator, which is itself discarded.
pub open spec fn spec_consume(
    tokens: Seq<Seq<char>>,
    j: int,
    room: nat,
    term: Option<Seq<char>>,
    allow_hyphen: bool,
    allow_neg: bool,
) -> (Seq<Seq<char>>, int)
    decreases tokens.len() - j,
{
    if !(0 <= j < tokens.len()) || room == 0 {
        (Seq::empty(), j)
    } else if term is Some && tokens[j] == term->0 {
        (Seq::empty(), j + 1)
    } else if spec_consumable(tokens[j], allow_hyphen, allow_neg) {
        let r = spec_consume(tokens, j + 1, (room - 1) as nat, term, allow_hyphen, allow_neg);
        (seq![tokens[j]] + r.0, r.1)
    } else {
        (Seq::empty(), j)
    }
}

/// Each raw token from `k` on, split on the delimiter when one is set.
pub open spec fn spec_split_values_from(raws: Seq<Seq<char>>, d: Option<char>, k: int) -> Seq<
    Seq<char>,
>
    decreases raws.len() - k,
{
    if !(0 <= k < raws.len()) {
        Seq::empty()
    } else {
        (match d {
            Some(dc) => spec_split(raws[k], dc),
            None => seq![raws[k]],
        }) + spec_split_values_from(raws, d, k + 1)
    }
}

/// All raw values, split on the delimiter when one is set.
pub open spec fn spec_split_values(raws: Seq<Seq<char>>, d: Option<char>) -> Seq<Seq<char>> {
    spec_split_values_from(raws, d, 0)
}

/// Checks the values from `k` on: all checked values in order, or the
/// first rejected raw value.
pub open spec fn spec_check_all_from(
    check: crate::command::ValueCheckModel,
    ci: bool,
    vals: Seq<Seq<char>>,
    k: int,
) -> Result<Seq<Seq<char>>, Seq<char>>
    decreases vals.len() - k,
{
    if !(0 <= k < vals.len()) {
        Ok(Seq::empty())
    } else {
        match spec_check_value(check, ci, vals[k]) {
            None => Err(vals[k]),
            Some(v) => match spec_check_all_from(check, ci, vals, k + 1) {
                Ok(r) => Ok(seq![v] + r),
                Err(e) => Err(e),
            },
        }
    }
}

/// Applies one occurrence's checked values to the slot of argument `ai`
/// according to its action: `SetValue` rebinds (an error on a repeated
/// occurrence unless the command allows self-override), `Append`
/// accumulates, `Count` increments, and the boolean actions record their
/// literal (an error on repetition unless self-override is allowed).
pub open spec fn spec_bind_action(
    cmd: CommandModel,
    ai: int,
    slots: Seq<Option<BindingModel>>,
    checked: Seq<Seq<char>>,
) -> Result<Seq<Option<BindingModel>>, DiagModel> {
    let a = cmd.args[ai].arg;
    let disp = spec_arg_display(cmd.args[ai].name, a);
    let occupied = slots[ai] is Some;
    let old_count: u64 = match slots[ai] {
        Some(b) => b.count,
        None => 0,
    };
    let old_values: Seq<Seq<char>> = match slots[ai] {
        Some(b) => b.values,
        None => Seq::empty(),
    };
    match a.action {
        ArgAction::SetValue => if occupied && !cmd.args_override_self {
            Err(DiagModel::Error(spec_msg_duplicate(disp)))
        } else {
            Ok(
                slots.update(
                    ai,
                    Some(
                        BindingModel {
                            values: checked,
                            count: spec_sat_inc(old_count),
                            source: ValueSource::CommandLine,
                        },
                    ),
                ),
            )
        },
        ArgAction::Append => Ok(
            slots.update(
                ai,
                Some(
                    BindingModel {
                        values: old_values + checked,
                        count: spec_sat_inc(old_count),
                        source: ValueSource::CommandLine,
                    },
                ),
            ),
        ),
        ArgAction::Count => Ok(
            slots.update(
                ai,
                Some(
                    BindingModel {
                        values: old_values,
                        count: spec_sat_inc(old_count),
                        source: ValueSource::CommandLine,
                    },
                ),
            ),
        ),
        ArgAction::SetTrue => if occupied && !cmd.args_override_self {
            Err(DiagModel::Error(spec_msg_duplicate(disp)))
        } else {
            Ok(
                slots.update(
                    ai,
                    Some(
                        BindingModel {
                            values: if checked.len() > 0 {
                                checked
                            } else {
                                seq!["true"@]
                            },
                            count: spec_sat_inc(old_count),
                            source: ValueSource::CommandLine,
                        },
                    ),
                ),
            )
        },
        ArgAction::SetFalse => if occupied && !cmd.args_override_self {
            Err(DiagModel::Error(spec_msg_duplicate(disp)))
        } else {
            Ok(
                slots.update(
                    ai,
                    Some(
                        BindingModel {
                            values: if checked.len() > 0 {
                                checked
                            } else {
                                seq!["false"@]
                            },
                            count: spec_sat_inc(old_count),
                            source: ValueSource::CommandLine,
                        },
                    ),
                ),
            )
        },
        ArgAction::Help => Err(DiagModel::Help(false)),
        ArgAction::HelpShort => Err(DiagModel::Help(false)),
        ArgAction::HelpLong => Err(DiagModel::Help(true)),
        ArgAction::Version => Err(DiagModel::Version(false)),
    }
}

/// Applies one occurrence's raw values: when none were supplied and the
/// argument has default-missing values, those stand in; then the arity
/// bounds are enforced (the ceiling only for undelimited values, since
/// splitting one token on the delimiter may legitimately yield several),
/// every value is checked, and the action is applied.
pub open spec fn spec_apply_values(
    cmd: CommandModel,
    ai: int,
    slots: Seq<Option<BindingModel>>,
    vals: Seq<Seq<char>>,
) -> Result<Seq<Option<BindingModel>>, DiagModel> {
    let a = cmd.args[ai].arg;
    let disp = spec_arg_display(cmd.args[ai].name, a);
    let vals1 = if vals.len() == 0 && a.default_missing_values.len() > 0 {
        a.default_missing_values
    } else {
        vals
    };
    if a.value_delimiter is None && vals1.len() > a.max_values() {
        Err(DiagModel::Error(spec_msg_too_many(disp)))
    } else if vals1.len() < a.min_values() {
        Err(
            DiagModel::Error(
                if vals1.len() == 0 {
                    spec_msg_missing_value(disp)
                } else {
                    spec_msg_few_values(disp)
                },
            ),
        )
    } else {
        match spec_check_all_from(a.value_check, a.ignore_case, vals1, 0) {
            Err(bad) => Err(DiagModel::Error(spec_msg_invalid(bad, disp))),
            Ok(checked) => spec_bind_action(cmd, ai, slots, checked),
        }
    }
}

/// One textual occurrence of option argument `ai` at token `i`: help and
/// version actions short-circuit at once; otherwise the occurrence's
/// values come from the inline `=` part if present, or are consumed from
/// the following tokens (an argument requiring `=` consumes none), and are
/// then applied to the slot.
pub open spec fn spec_apply_occurrence(
    cmd: CommandModel,
    tokens: Seq<Seq<char>>,
    i: int,
    st: ScanStateModel,
    ai: int,
    inline: Option<Seq<char>>,
    via_long: bool,
) -> Result<(ScanStateModel, int), DiagModel> {
    let a = cmd.args[ai].arg;
    let disp = spec_arg_display(cmd.args[ai].name, a);
    match a.action {
        ArgAction::Help => Err(DiagModel::Help(via_long)),
        ArgAction::HelpShort => Err(DiagModel::Help(false)),
        ArgAction::HelpLong => Err(DiagModel::Help(true)),
        ArgAction::Version => Err(DiagModel::Version(via_long)),
        _ => {
            let consumed: (Seq<Seq<char>>, int) = if inline is Some {
                (seq![inline->0], i + 1)
            } else if a.require_equals && a.min_values() > 0 {
                (Seq::empty(), i + 1)
            } else if a.require_equals {
                (Seq::empty(), i + 1)
            } else {
                spec_consume(
                    tokens,
                    i + 1,
                    a.max_values(),
                    a.value_terminator,
                    a.allow_hyphen_values,
                    a.allow_negative_numbers,
                )
            };
            if inline is None && a.require_equals && a.min_values() > 0 {
                Err(DiagModel::Error(spec_msg_equals(disp)))
            } else {
                let vals = spec_split_values(consumed.0, a.value_delimiter);
                match spec_apply_values(cmd, ai, st.slots, vals) {
                    Err(d) => Err(d),
                    Ok(slots2) => Ok((ScanStateModel { slots: slots2, ..st }, consumed.1)),
                }
            }
        },
    }
}

/// Adds a leftover token seen before the separator, and activates the
/// trailing catch-all absorption once enough leftovers have arrived.
pub open spec fn spec_add_leftover(cmd: CommandModel, st: ScanStateModel, t: Seq<char>) -> ScanStateModel {
    let l2 = st.leftovers.push(LeftoverModel { value: t, after_sep: false });
    ScanStateModel {
        leftovers: l2,
        raw_mode: st.raw_mode || (match spec_trailing_threshold(cmd) {
            Some(th) => l2.len() >= th,
            None => false,
        }),
        ..st
    }
}

/// Handles one token in the cluster of short flags `t`, at character `j`:
/// a letter resolving to a value-taking argument takes the rest of the
/// token (after an optional `=`) as its inline value or consumes following
/// tokens; a zero-arity letter is applied and the cluster continues.
/// Unknown letters fall back to the implicit help and version flags, are
/// dropped wholesale under error tolerance, and are errors otherwise.
pub open spec fn spec_handle_cluster(
    cmd: CommandModel,
    tokens: Seq<Seq<char>>,
    i: int,
    st: ScanStateModel,
    t: Seq<char>,
    j: int,
) -> Result<(ScanStateModel, int), DiagModel>
    decreases t.len() - j,
{
    if !(1 <= j < t.len()) {
        Ok((st, i + 1))
    } else {
        let c = t[j];
        match spec_find_short(cmd, c) {
            Some(ai) => {
                let a = cmd.args[ai].arg;
                if a.max_values() > 0 {
                    let inline: Option<Seq<char>> = if j + 1 < t.len() {
                        if t[j + 1] == '=' {
                            Some(t.skip(j + 2))
                        } else {
                            Some(t.skip(j + 1))
                        }
                    } else {
                        None
                    };
                    spec_apply_occurrence(cmd, tokens, i, st, ai, inline, false)
                } else if j + 1 < t.len() && t[j + 1] == '=' {
                    spec_apply_occurrence(cmd, tokens, i, st, ai, Some(t.skip(j + 2)), false)
                } else {
                    match spec_apply_occurrence(cmd, tokens, i, st, ai, None, false) {
                        Err(d) => Err(d),
                        Ok((st2, _)) => spec_handle_cluster(cmd, tokens, i, st2, t, j + 1),
                    }
                }
            },
            None => {
                if c == 'h' && !cmd.disable_help_flag {
                    Err(DiagModel::Help(false))
                } else if c == 'V' && spec_version_enabled(cmd) {
                    Err(DiagModel::Version(false))
                } else if j == 1 && spec_any_hyphen_pos_from(cmd, 0) {
                    Ok((spec_add_leftover(cmd, st, t), i + 1))
                } else if cmd.ignore_errors {
                    Ok((st, i + 1))
                } else {
                    Err(DiagModel::Error(spec_msg_unknown_short(c)))
                }
            },
        }
    }
}

/// Handles one long-option token: the name is the part before the first
/// `=`; it resolves by exact match, then to the implicit help and version
/// flags, then (when long-prefix inference is on) by unambiguous prefix.
/// Unknown names are dropped under error tolerance and errors otherwise.
pub open spec fn spec_handle_long(
    cmd: CommandModel,
    tokens: Seq<Seq<char>>,
    i: int,
    st: ScanStateModel,
    t: Seq<char>,
) -> Result<(ScanStateModel, int), DiagModel> {
    let body = t.skip(2);
    let eq = spec_find_char_from(body, '=', 0);
    let name = body.take(eq);
    let inline: Option<Seq<char>> = if eq < body.len() {
        Some(body.skip(eq + 1))
    } else {
        None
    };
    if name.len() == 0 {
        if cmd.ignore_errors {
            Ok((st, i + 1))
        } else {
            Err(DiagModel::Error(spec_msg_unexpected(t)))
        }
    } else {
        match spec_find_long(cmd, name) {
            Some(ai) => spec_apply_occurrence(cmd, tokens, i, st, ai, inline, true),
            None => {
                if !cmd.disable_help_flag && name == "help"@ {
                    Err(DiagModel::Help(true))
                } else if spec_version_enabled(cmd) && name == "version"@ {
                    Err(DiagModel::Version(true))
                } else if cmd.infer_long_args && spec_count_prefix_from(cmd, name, 0) == 1 {
                    match spec_find_prefix_from(cmd, name, 0) {
                        Some(ai) => spec_apply_occurrence(cmd, tokens, i, st, ai, inline, true),
                        None => Err(DiagModel::Error(spec_msg_unexpected(t))),
                    }
                } else if cmd.infer_long_args && spec_count_prefix_from(cmd, name, 0) >= 2 {
                    Err(DiagModel::Error(spec_msg_ambiguous(name)))
                } else if spec_any_hyphen_pos_from(cmd, 0) {
                    Ok((spec_add_leftover(cmd, st, t), i + 1))
                } else if cmd.ignore_errors {
                    Ok((st, i + 1))
                } else {
                    Err(DiagModel::Error(spec_msg_unexpected(t)))
                }
            },
        }
    }
}

/// One step of the scan at token `i`: in absorption mode or after the
/// separator every token is a leftover; the bare separator switches mode
/// and is discarded; long and short option tokens are resolved and bound;
/// negative-number tokens are leftovers when some argument admits them;
/// everything else is a leftover.
pub open spec fn spec_scan_step(
    cmd: CommandModel,
    tokens: Seq<Seq<char>>,
    i: int,
    st: ScanStateModel,
) -> Result<(ScanStateModel, int), DiagModel> {
    let t = tokens[i];
    if st.raw_mode || st.saw_sep {
        Ok(
            (
                ScanStateModel {
                    leftovers: st.leftovers.push(
                        LeftoverModel { value: t, after_sep: st.saw_sep },
                    ),
                    ..st
                },
                i + 1,
            ),
        )
    } else if t == "--"@ {
        Ok((ScanStateModel { saw_sep: true, ..st }, i + 1))
    } else if spec_is_long_token(t) {
        spec_handle_long(cmd, tokens, i, st, t)
    } else if spec_is_short_token(t) {
        if spec_is_neg_number(t) && spec_any_neg_from(cmd, 0) {
            Ok((spec_add_leftover(cmd, st, t), i + 1))
        } else {
            spec_handle_cluster(cmd, tokens, i, st, t, 1)
        }
    } else {
        Ok((spec_add_leftover(cmd, st, t), i + 1))
    }
}

/// The fold of the step function over the tokens from `i` on.
pub open spec fn spec_scan(
    cmd: CommandModel,
    tokens: Seq<Seq<char>>,
    i: int,
    st: ScanStateModel,
) -> Result<ScanStateModel, DiagModel>
    decreases tokens.len() - i,
{
    if !(0 <= i < tokens.len()) {
        Ok(st)
    } else {
        match spec_scan_step(cmd, tokens, i, st) {
            Err(d) => Err(d),
            Ok((st2, i2)) => if i < i2 <= tokens.len() {
                spec_scan(cmd, tokens, i2, st2)
            } else {
                Err(DiagModel::Error(Seq::empty()))
            },
        }
    }
}

/// The scanner's initial state: one empty slot per argument, no leftovers,
/// both modes off.
pub open spec fn spec_scan_init(cmd: CommandModel) -> ScanStateModel {
    ScanStateModel {
        slots: Seq::new(cmd.args.len(), |i: int| None),
        leftovers: Seq::empty(),
        saw_sep: false,
        raw_mode: false,
    }
}

/// Whether the token may be consumed as a value.
fn consumable(t: &String, allow_hyphen: bool, allow_neg: bool) -> (r: bool)
    ensures
        r == spec_consumable(t@, allow_hyphen, allow_neg),
{
    let n = t.as_str().unicode_len();
    let option_like = n >= 2 && t.as_str().get_char(0) == '-';
    if !option_like {
        return true;
    }
    if allow_neg && is_neg_number(t.as_str()) {
        return true;
    }
    allow_hyphen && !str_eq(t.as_str(), "--")
}

/// Consumes up to `room` value tokens from position `j` on; see
/// `spec_consume`.
fn consume_values(
    tokens: &Vec<String>,
    j: usize,
    room: usize,
    term: &Option<String>,
    allow_hyphen: bool,
    allow_neg: bool,
) -> (r: (Vec<String>, usize))
    requires
        j <= tokens.len(),
    ensures
        (r.0.deep_view(), r.1 as int) == spec_consume(
            tokens.deep_view(),
            j as int,
            room as nat,
            term.deep_view(),
            allow_hyphen,
            allow_neg,
        ),
        j <= r.1 <= tokens.len(),
    decreases tokens.len() - j,
{
    if j >= tokens.len() || room == 0 {
        let r = (Vec::<String>::new(), j);
        proof {
            assert(r.0.deep_view() =~= Seq::<Seq<char>>::empty());
        }
        return r;
    }
    let t = &tokens[j];
    proof {
        assert(tokens.deep_view()[j as int] == t@);
    }
    if let Some(tm) = term {
        if str_eq(t.as_str(), tm.as_str()) {
            let r = (Vec::<String>::new(), j + 1);
            proof {
                assert(r.0.deep_view() =~= Seq::<Seq<char>>::empty());
            }
            return r;
        }
    }
    if consumable(t, allow_hyphen, allow_neg) {
        let (mut rest, next) = consume_values(tokens, j + 1, room - 1, term, allow_hyphen, allow_neg);
        let ghost restm = rest.deep_view();
        rest.insert(0, t.clone());
        proof {
            assert(rest.deep_view() =~= seq![t@] + restm);
        }
        (rest, next)
    } else {
        let r = (Vec::<String>::new(), j);
        proof {
            assert(r.0.deep_view() =~= Seq::<Seq<char>>::empty());
        }
        r
    }
}

/// Splits each raw value on the delimiter when one is set.
fn split_values(raws: Vec<String>, d: Option<char>) -> (r: Vec<String>)
    ensures
        r.deep_view() == spec_split_values(raws.deep_view(), d),
{
    let mut acc: Vec<String> = Vec::new();
    let mut k: usize = 0;
    while k < raws.len()
        invariant
            k <= raws.len(),
            spec_split_values_from(raws.deep_view(), d, 0) =~= acc.deep_view()
                + spec_split_values_from(raws.deep_view(), d, k as int),
        decreases raws.len() - k,
    {
        let ghost acc0 = acc.deep_view();
        let mut piece: Vec<String> = match d {
            Some(dc) => split_on(raws[k].as_str(), dc),
            None => {
                let mut v: Vec<String> = Vec::new();
                v.push(raws[k].clone());
                proof {
                    assert(v.deep_view() =~= seq![raws.deep_view()[k as int]]);
                }
                v
            },
        };
        let ghost piecem = piece.deep_view();
        acc.append(&mut piece);
        proof {
            assert(acc.deep_view() =~= acc0 + piecem);
            assert(spec_split_values_from(raws.deep_view(), d, k as int) == piecem
                + spec_split_values_from(raws.deep_view(), d, k + 1));
            assert(spec_split_values_from(raws.deep_view(), d, 0) =~= acc.deep_view()
                + spec_split_values_from(raws.deep_view(), d, k + 1));
        }
        k = k + 1;
    }
    proof {
        assert(acc.deep_view() + spec_split_values_from(raws.deep_view(), d, raws.len() as int)
            =~= acc.deep_view());
    }
    acc
}

/// Checks every value in order; see `spec_check_all_from`.
pub(crate) fn check_all_values(check: &crate::command::ValueCheck, ci: bool, vals: &Vec<String>) -> (r: Result<
    Vec<String>,
    String,
>)
    ensures
        match r {
            Ok(cs) => spec_check_all_from(check@, ci, vals.deep_view(), 0) == Ok::<_, Seq<char>>(
                cs.deep_view(),
            ),
            Err(b) => spec_check_all_from(check@, ci, vals.deep_view(), 0) == Err::<
                Seq<Seq<char>>,
                _,
            >(b@),
        },
{
    let mut acc: Vec<String> = Vec::new();
    let mut k: usize = 0;
    while k < vals.len()
        invariant
            k <= vals.len(),
            match spec_check_all_from(check@, ci, vals.deep_view(), k as int) {
                Ok(rest) => spec_check_all_from(check@, ci, vals.deep_view(), 0) == Ok::<
                    _,
                    Seq<char>,
                >(acc.deep_view() + rest),
                Err(e) => spec_check_all_from(check@, ci, vals.deep_view(), 0) == Err::<
                    Seq<Seq<char>>,
                    _,
                >(e),
            },
        decreases vals.len() - k,
    {
        let ghost acc0 = acc.deep_view();
        match check_value(check, ci, &vals[k]) {
            None => {
                return Err(vals[k].clone());
            },
            Some(v) => {
                acc.push(v);
                proof {
                    let valsm = vals.deep_view();
                    let checked = spec_check_value(check@, ci, valsm[k as int])->0;
                    assert(acc.deep_view() =~= acc0.push(checked));
                    if let Ok(rest) = spec_check_all_from(check@, ci, valsm, k + 1) {
                        assert(spec_check_all_from(check@, ci, valsm, k as int) == Ok::<
                            _,
                            Seq<char>,
                        >(seq![checked] + rest));
                        assert(acc0 + (seq![checked] + rest) =~= acc.deep_view() + rest);
                    }
                }
            },
        }
        k = k + 1;
    }
    proof {
        assert(acc.deep_view() + Seq::<Seq<char>>::empty() =~= acc.deep_view());
    }
    Ok(acc)
}

/// Applies one occurrence's checked values to the slot of argument `ai`;
/// see `spec_bind_action`.
fn bind_action(cmd: &Command, ai: usize, st: ScanState, checked: Vec<String>) -> (r: Result<
    ScanState,
    Diag,
>)
    requires
        ai < cmd.args.len(),
        st@.slots.len() == cmd@.args.len(),
    ensures
        match r {
            Ok(st2) => spec_bind_action(cmd@, ai as int, st@.slots, checked.deep_view())
                == Ok::<_, DiagModel>(st2@.slots) && st2@.leftovers == st@.leftovers
                && st2@.saw_sep == st@.saw_sep && st2@.raw_mode == st@.raw_mode
                && st2@.slots.len() == cmd@.args.len(),
            Err(d) => spec_bind_action(cmd@, ai as int, st@.slots, checked.deep_view())
                == Err::<Seq<Option<BindingModel>>, _>(d@),
        },
{
    let mut st = st;
    let a = &cmd.args[ai].arg;
    proof {
        assert(a@ == cmd@.args[ai as int].arg);
        assert(cmd.args@[ai as int].name@ == cmd@.args[ai as int].name);
    }
    let occupied = st.slots[ai].is_some();
    let old_count: u64 = match &st.slots[ai] {
        Some(b) => b.count,
        None => 0,
    };
    proof {
        assert(st@.slots[ai as int] is Some <==> occupied);
        if occupied {
            assert(st@.slots[ai as int]->0.count == old_count);
        }
    }
    let ghost slots0 = st@.slots;
    match a.action {
        ArgAction::SetValue => {
            if occupied && !cmd.args_override_self {
                let disp = arg_display(&cmd.args[ai].name, a);
                return Err(Diag::Error(msg_duplicate(disp.as_str())));
            }
            st.slots[ai] = Some(
                Binding {
                    values: checked,
                    count: sat_inc(old_count),
                    source: ValueSource::CommandLine,
                },
            );
            proof {
                assert(st@.slots =~~= spec_bind_action(
                    cmd@,
                    ai as int,
                    slots0,
                    checked.deep_view(),
                )->Ok_0);
            }
            Ok(st)
        },
        ArgAction::Append => {
            let mut vs: Vec<String> = match &st.slots[ai] {
                Some(b) => crate::strutil::clone_strings(&b.values),
                None => Vec::new(),
            };
            proof {
                if occupied {
                    assert(vs.deep_view() == st@.slots[ai as int]->0.values);
                } else {
                    assert(vs.deep_view() =~= Seq::<Seq<char>>::empty());
                }
            }
            let mut c2 = checked;
            let ghost vs0 = vs.deep_view();
            let ghost c2m = c2.deep_view();
            vs.append(&mut c2);
            proof {
                assert(vs.deep_view() =~= vs0 + c2m);
            }
            st.slots[ai] = Some(
                Binding { values: vs, count: sat_inc(old_count), source: ValueSource::CommandLine },
            );
            proof {
                assert(st@.slots =~~= spec_bind_action(cmd@, ai as int, slots0, c2m)->Ok_0);
            }
            Ok(st)
        },
        ArgAction::Count => {
            let vs: Vec<String> = match &st.slots[ai] {
                Some(b) => crate::strutil::clone_strings(&b.values),
                None => Vec::new(),
            };
            proof {
                if occupied {
                    assert(vs.deep_view() == st@.slots[ai as int]->0.values);
                } else {
                    assert(vs.deep_view() =~= Seq::<Seq<char>>::empty());
                }
            }
            st.slots[ai] = Some(
                Binding { values: vs, count: sat_inc(old_count), source: ValueSource::CommandLine },
            );
            proof {
                assert(st@.slots =~~= spec_bind_action(
                    cmd@,
                    ai as int,
                    slots0,
                    checked.deep_view(),
                )->Ok_0);
            }
            Ok(st)
        },
        ArgAction::SetTrue => {
            if occupied && !cmd.args_override_self {
                let disp = arg_display(&cmd.args[ai].name, a);
                return Err(Diag::Error(msg_duplicate(disp.as_str())));
            }
            let ghost checkedm = checked.deep_view();
            let vs: Vec<String> = if checked.len() > 0 {
                checked
            } else {
                let mut v: Vec<String> = Vec::new();
                v.push("true".to_owned());
                proof {
                    assert(v.deep_view() =~= seq!["true"@]);
                }
                v
            };
            st.slots[ai] = Some(
                Binding { values: vs, count: sat_inc(old_count), source: ValueSource::CommandLine },
            );
            proof {
                assert(st@.slots =~~= spec_bind_action(cmd@, ai as int, slots0, checkedm)->Ok_0);
            }
            Ok(st)
        },
        ArgAction::SetFalse => {
            if occupied && !cmd.args_override_self {
                let disp = arg_display(&cmd.args[ai].name, a);
                return Err(Diag::Error(msg_duplicate(disp.as_str())));
            }
            let ghost checkedm = checked.deep_view();
            let vs: Vec<String> = if checked.len() > 0 {
                checked
            } else {
                let mut v: Vec<String> = Vec::new();
                v.push("false".to_owned());
                proof {
                    assert(v.deep_view() =~= seq!["false"@]);
                }
                v
            };
            st.slots[ai] = Some(
                Binding { values: vs, count: sat_inc(old_count), source: ValueSource::CommandLine },
            );
            proof {
                assert(st@.slots =~~= spec_bind_action(cmd@, ai as int, slots0, checkedm)->Ok_0);
            }
            Ok(st)
        },
        ArgAction::Help => Err(Diag::Help(false)),
        ArgAction::HelpShort => Err(Diag::Help(false)),
        ArgAction::HelpLong => Err(Diag::Help(true)),
        ArgAction::Version => Err(Diag::Version(false)),
    }
}

/// Applies one occurrence's raw values to argument `ai`; see
/// `spec_apply_values`.
fn apply_values(cmd: &Command, ai: usize, st: ScanState, vals: Vec<String>) -> (r: Result<
    ScanState,
    Diag,
>)
    requires
        ai < cmd.args.len(),
        st@.slots.len() == cmd@.args.len(),
    ensures
        match r {
            Ok(st2) => spec_apply_values(cmd@, ai as int, st@.slots, vals.deep_view())
                == Ok::<_, DiagModel>(st2@.slots) && st2@.leftovers == st@.leftovers
                && st2@.saw_sep == st@.saw_sep && st2@.raw_mode == st@.raw_mode
                && st2@.slots.len() == cmd@.args.len(),
            Err(d) => spec_apply_values(cmd@, ai as int, st@.slots, vals.deep_view())
                == Err::<Seq<Option<BindingModel>>, _>(d@),
        },
{
    let a = &cmd.args[ai].arg;
    proof {
        assert(a@ == cmd@.args[ai as int].arg);
        assert(cmd.args@[ai as int].name@ == cmd@.args[ai as int].name);
    }
    let vals1: Vec<String> = if vals.len() == 0 && a.default_missing_values.len() > 0 {
        crate::strutil::clone_strings(&a.default_missing_values)
    } else {
        vals
    };
    if a.value_delimiter.is_none() && vals1.len() > a.max_values() {
        let disp = arg_display(&cmd.args[ai].name, a);
        return Err(Diag::Error(msg_too_many(disp.as_str())));
    }
    if vals1.len() < a.min_values() {
        let disp = arg_display(&cmd.args[ai].name, a);
        if vals1.len() == 0 {
            return Err(Diag::Error(msg_missing_value(disp.as_str())));
        } else {
            return Err(Diag::Error(msg_few_values(disp.as_str())));
        }
    }
    match check_all_values(&a.value_check, a.ignore_case, &vals1) {
        Err(bad) => {
            let disp = arg_display(&cmd.args[ai].name, a);
            Err(Diag::Error(msg_invalid(bad.as_str(), disp.as_str())))
        },
        Ok(checked) => bind_action(cmd, ai, st, checked),
    }
}

/// One textual occurrence of option argument `ai` at token `i`; see
/// `spec_apply_occurrence`.
fn apply_occurrence(
    cmd: &Command,
    tokens: &Vec<String>,
    i: usize,
    st: ScanState,
    ai: usize,
    inline: Option<String>,
    via_long: bool,
) -> (r: Result<(ScanState, usize), Diag>)
    requires
        ai < cmd.args.len(),
        i < tokens.len(),
        st@.slots.len() == cmd@.args.len(),
    ensures
        match r {
            Ok(p) => spec_apply_occurrence(
                cmd@,
                tokens.deep_view(),
                i as int,
                st@,
                ai as int,
                inline.deep_view(),
                via_long,
            ) == Ok::<_, DiagModel>((p.0@, p.1 as int)) && i < p.1 <= tokens.len()
                && p.0@.slots.len() == cmd@.args.len(),
            Err(d) => spec_apply_occurrence(
                cmd@,
                tokens.deep_view(),
                i as int,
                st@,
                ai as int,
                inline.deep_view(),
                via_long,
            ) == Err::<(ScanStateModel, int), _>(d@),
        },
{
    let a = &cmd.args[ai].arg;
    proof {
        assert(a@ == cmd@.args[ai as int].arg);
        assert(cmd.args@[ai as int].name@ == cmd@.args[ai as int].name);
    }
    match a.action {
        ArgAction::Help => {
            return Err(Diag::Help(via_long));
        },
        ArgAction::HelpShort => {
            return Err(Diag::Help(false));
        },
        ArgAction::HelpLong => {
            return Err(Diag::Help(true));
        },
        ArgAction::Version => {
            return Err(Diag::Version(via_long));
        },
        _ => {},
    }
    let (raws, next): (Vec<String>, usize) = match inline {
        Some(v) => {
            let mut rv: Vec<String> = Vec::new();
            rv.push(v);
            proof {
                assert(rv.deep_view() =~= seq![inline.deep_view()->0]);
            }
            (rv, i + 1)
        },
        None => {
            if a.require_equals {
                if a.min_values() > 0 {
                    let disp = arg_display(&cmd.args[ai].name, a);
                    return Err(Diag::Error(msg_equals(disp.as_str())));
                }
                (Vec::new(), i + 1)
            } else {
                consume_values(
                    tokens,
                    i + 1,
                    a.max_values(),
                    &a.value_terminator,
                    a.allow_hyphen_values,
                    a.allow_negative_numbers,
                )
            }
        },
    };
    proof {
        if inline is Some || a.require_equals {
            assert(raws.deep_view() =~= (if inline.deep_view() is Some {
                seq![inline.deep_view()->0]
            } else {
                Seq::<Seq<char>>::empty()
            }));
        }
    }
    let vals = split_values(raws, a.value_delimiter);
    match apply_values(cmd, ai, st, vals) {
        Err(d) => Err(d),
        Ok(st2) => Ok((st2, next)),
    }
}

/// The index of the first `=` in the string, or its length.
fn find_eq(s: &str) -> (k: usize)
    ensures
        k as int == spec_find_char_from(s@, '=', 0),
        k <= s@.len(),
    decreases s@.len(),
{
    let n = s.unicode_len();
    let mut i: usize = 0;
    while i < n
        invariant
            i <= n,
            n as nat == s@.len(),
            spec_find_char_from(s@, '=', 0) == spec_find_char_from(s@, '=', i as int),
        decreases n - i,
    {
        if s.get_char(i) == '=' {
            return i;
        }
        i = i + 1;
    }
    n
}

/// Adds a leftover token seen before the separator; see
/// `spec_add_leftover`.
fn add_leftover(cmd: &Command, st: ScanState, tok: &String) -> (r: ScanState)
    ensures
        r@ == spec_add_leftover(cmd@, st@, tok@),
        r@.slots == st@.slots,
{
    let mut st = st;
    let ghost st0 = st@;
    st.leftovers.push(Leftover { value: tok.clone(), after_sep: false });
    if !st.raw_mode {
        if let Some(th) = cmd.trailing_threshold() {
            if st.leftovers.len() >= th {
                st.raw_mode = true;
            }
        }
    }
    proof {
        assert(st@ =~~= spec_add_leftover(cmd@, st0, tok@));
    }
    st
}

/// Handles one cluster of short flags; see `spec_handle_cluster`.
fn handle_cluster(
    cmd: &Command,
    tokens: &Vec<String>,
    i: usize,
    st: ScanState,
    tok: &String,
    j: usize,
) -> (r: Result<(ScanState, usize), Diag>)
    requires
        i < tokens.len(),
        1 <= j,
        st@.slots.len() == cmd@.args.len(),
    ensures
        match r {
            Ok(p) => spec_handle_cluster(
                cmd@,
                tokens.deep_view(),
                i as int,
                st@,
                tok@,
                j as int,
            ) == Ok::<_, DiagModel>((p.0@, p.1 as int)) && i < p.1 <= tokens.len()
                && p.0@.slots.len() == cmd@.args.len(),
            Err(d) => spec_handle_cluster(
                cmd@,
                tokens.deep_view(),
                i as int,
                st@,
                tok@,
                j as int,
            ) == Err::<(ScanStateModel, int), _>(d@),
        },
    decreases tok@.len() - j,
{
    let n = tok.as_str().unicode_len();
    if j >= n {
        return Ok((st, i + 1));
    }
    let c = tok.as_str().get_char(j);
    match cmd.find_short(c) {
        Some(ai) => {
            let a = &cmd.args[ai].arg;
            proof {
                assert(a@ == cmd@.args[ai as int].arg);
            }
            if a.max_values() > 0 {
                let inline: Option<String> = if j + 1 < n {
                    if tok.as_str().get_char(j + 1) == '=' {
                        let piece = tok.as_str().substring_char(j + 2, n);
                        proof {
                            assert(piece@ =~= tok@.skip(j + 2));
                        }
                        Some(piece.to_owned())
                    } else {
                        let piece = tok.as_str().substring_char(j + 1, n);
                        proof {
                            assert(piece@ =~= tok@.skip(j + 1));
                        }
                        Some(piece.to_owned())
                    }
                } else {
                    None
                };
                apply_occurrence(cmd, tokens, i, st, ai, inline, false)
            } else if j + 1 < n && tok.as_str().get_char(j + 1) == '=' {
                let piece = tok.as_str().substring_char(j + 2, n);
                proof {
                    assert(piece@ =~= tok@.skip(j + 2));
                }
                apply_occurrence(cmd, tokens, i, st, ai, Some(piece.to_owned()), false)
            } else {
                match apply_occurrence(cmd, tokens, i, st, ai, None, false) {
                    Err(d) => Err(d),
                    Ok((st2, _)) => handle_cluster(cmd, tokens, i, st2, tok, j + 1),
                }
            }
        },
        None => {
            if c == 'h' && !cmd.disable_help_flag {
                Err(Diag::Help(false))
            } else if c == 'V' && cmd.version_enabled() {
                Err(Diag::Version(false))
            } else if j == 1 && cmd.any_hyphen_positional() {
                Ok((add_leftover(cmd, st, tok), i + 1))
            } else if cmd.ignore_errors {
                Ok((st, i + 1))
            } else {
                Err(Diag::Error(msg_unknown_short(c)))
            }
        },
    }
}

/// Handles one long-option token; see `spec_handle_long`.
fn handle_long(
    cmd: &Command,
    tokens: &Vec<String>,
    i: usize,
    st: ScanState,
    tok: &String,
) -> (r: Result<(ScanState, usize), Diag>)
    requires
        i < tokens.len(),
        spec_is_long_token(tok@),
        st@.slots.len() == cmd@.args.len(),
    ensures
        match r {
            Ok(p) => spec_handle_long(cmd@, tokens.deep_view(), i as int, st@, tok@) == Ok::<
                _,
                DiagModel,
            >((p.0@, p.1 as int)) && i < p.1 <= tokens.len() && p.0@.slots.len()
                == cmd@.args.len(),
            Err(d) => spec_handle_long(cmd@, tokens.deep_view(), i as int, st@, tok@) == Err::<
                (ScanStateModel, int),
                _,
            >(d@),
        },
{
    let n = tok.as_str().unicode_len();
    let body = tok.as_str().substring_char(2, n);
    proof {
        assert(body@ =~= tok@.skip(2));
    }
    let eq = find_eq(body);
    let blen = body.unicode_len();
    let name = body.substring_char(0, eq);
    proof {
        assert(name@ =~= body@.take(eq as int));
    }
    let inline: Option<String> = if eq < blen {
        let piece = body.substring_char(eq + 1, blen);
        proof {
            assert(piece@ =~= body@.skip(eq + 1));
        }
        Some(piece.to_owned())
    } else {
        None
    };
    if name.is_empty() {
        if cmd.ignore_errors {
            return Ok((st, i + 1));
        } else {
            return Err(Diag::Error(msg_unexpected(tok.as_str())));
        }
    }
    match cmd.find_long(name) {
        Some(ai) => apply_occurrence(cmd, tokens, i, st, ai, inline, true),
        None => {
            if !cmd.disable_help_flag && str_eq(name, "help") {
                Err(Diag::Help(true))
            } else if cmd.version_enabled() && str_eq(name, "version") {
                Err(Diag::Version(true))
            } else {
                let (cnt, first) = cmd.find_prefix(name);
                if cmd.infer_long_args && cnt == 1 {
                    match first {
                        Some(ai) => apply_occurrence(cmd, tokens, i, st, ai, inline, true),
                        None => Err(Diag::Error(msg_unexpected(tok.as_str()))),
                    }
                } else if cmd.infer_long_args && cnt >= 2 {
                    Err(Diag::Error(msg_ambiguous(name)))
                } else if cmd.any_hyphen_positional() {
                    Ok((add_leftover(cmd, st, tok), i + 1))
                } else if cmd.ignore_errors {
                    Ok((st, i + 1))
                } else {
                    Err(Diag::Error(msg_unexpected(tok.as_str())))
                }
            }
        },
    }
}

/// One step of the scan at token `i`; see `spec_scan_step`.
fn scan_step(cmd: &Command, tokens: &Vec<String>, i: usize, st: ScanState) -> (r: Result<
    (ScanState, usize),
    Diag,
>)
    requires
        i < tokens.len(),
        st@.slots.len() == cmd@.args.len(),
    ensures
        match r {
            Ok(p) => spec_scan_step(cmd@, tokens.deep_view(), i as int, st@) == Ok::<
                _,
                DiagModel,
            >((p.0@, p.1 as int)) && i < p.1 <= tokens.len() && p.0@.slots.len()
                == cmd@.args.len(),
            Err(d) => spec_scan_step(cmd@, tokens.deep_view(), i as int, st@) == Err::<
                (ScanStateModel, int),
                _,
            >(d@),
        },
{
    let tok = &tokens[i];
    proof {
        assert(tokens.deep_view()[i as int] == tok@);
    }
    if st.raw_mode || st.saw_sep {
        let mut st = st;
        let ghost st0 = st@;
        let sep = st.saw_sep;
        st.leftovers.push(Leftover { value: tok.clone(), after_sep: sep });
        proof {
            assert(st@ =~~= (ScanStateModel {
                leftovers: st0.leftovers.push(
                    LeftoverModel { value: tok@, after_sep: st0.saw_sep },
                ),
                ..st0
            }));
        }
        return Ok((st, i + 1));
    }
    if str_eq(tok.as_str(), "--") {
        let mut st = st;
        let ghost st0 = st@;
        st.saw_sep = true;
        proof {
            assert(st@ =~~= (ScanStateModel { saw_sep: true, ..st0 }));
        }
        return Ok((st, i + 1));
    }
    let n = tok.as_str().unicode_len();
    let is_long = n > 2 && tok.as_str().get_char(0) == '-' && tok.as_str().get_char(1) == '-';
    let is_short = n >= 2 && tok.as_str().get_char(0) == '-' && tok.as_str().get_char(1) != '-';
    if is_long {
        handle_long(cmd, tokens, i, st, tok)
    } else if is_short {
        if is_neg_number(tok.as_str()) && cmd.any_negative_allowed() {
            Ok((add_leftover(cmd, st, tok), i + 1))
        } else {
            handle_cluster(cmd, tokens, i, st, tok, 1)
        }
    } else {
        Ok((add_leftover(cmd, st, tok), i + 1))
    }
}

/// Walks the whole token list once; see `spec_scan`.
pub fn scan(cmd: &Command, tokens: &Vec<String>) -> (r: Result<ScanState, Diag>)
    ensures
        match r {
            Ok(st) => spec_scan(cmd@, tokens.deep_view(), 0, spec_scan_init(cmd@)) == Ok::<
                _,
                DiagModel,
            >(st@) && st@.slots.len() == cmd@.args.len(),
            Err(d) => spec_scan(cmd@, tokens.deep_view(), 0, spec_scan_init(cmd@)) == Err::<
                ScanStateModel,
                _,
            >(d@),
        },
{
    let mut st = ScanState {
        slots: new_slots(cmd.args.len()),
        leftovers: Vec::new(),
        saw_sep: false,
        raw_mode: false,
    };
    proof {
        assert(st@ =~~= spec_scan_init(cmd@));
    }
    let mut i: usize = 0;
    while i < tokens.len()
        invariant
            i <= tokens.len(),
            st@.slots.len() == cmd@.args.len(),
            spec_scan(cmd@, tokens.deep_view(), 0, spec_scan_init(cmd@)) == spec_scan(
                cmd@,
                tokens.deep_view(),
                i as int,
                st@,
            ),
        decreases tokens.len() - i,
    {
        match scan_step(cmd, tokens, i, st) {
            Err(d) => {
                return Err(d);
            },
            Ok((st2, i2)) => {
                proof {
                    assert(spec_scan(cmd@, tokens.deep_view(), i as int, st@) == spec_scan(
                        cmd@,
                        tokens.deep_view(),
                        i2 as int,
                        st2@,
                    ));
                }
                st = st2;
                i = i2;
            },
        }
    }
    Ok(st)
}

/// The count of prefix matches from `i` on is bounded by the number of
/// remaining arguments.
pub proof fn lemma_count_prefix_bound(cmd: CommandModel, p: Seq<char>, i: int)
    requires
        0 <= i,
    ensures
        i <= cmd.args.len() ==> spec_count_prefix_from(cmd, p, i) <= cmd.args.len() - i,
        i > cmd.args.len() ==> spec_count_prefix_from(cmd, p, i) == 0,
    decreases cmd.args.len() - i,
{
    if 0 <= i < cmd.args.len() {
        lemma_count_prefix_bound(cmd, p, i + 1);
    }
}

} // verus!
