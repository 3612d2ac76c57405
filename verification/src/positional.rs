//! Distribution of leftover tokens to positional arguments.
//!
//! Positionals fill in declared index order, greedily up to their arity,
//! stopping early at a value terminator. When the command allows missing
//! positionals, an earlier positional is skipped when the remaining tokens
//! are no more than what the later positionals require, or when only
//! tokens after the separator remain and the later positionals can absorb
//! them all. Arguments marked last-only fill exclusively from tokens after
//! the separator. A token no positional can take is an error.
use vstd::prelude::*;

use crate::binding::{slots_view, spec_sat_add, sat_add, Binding, BindingModel, ValueSource};
use crate::command::{Command, CommandModel};
use crate::diag::{
    arg_display, msg_few_values, msg_invalid, msg_unexpected, spec_arg_display,
    spec_msg_few_values, spec_msg_invalid, spec_msg_unexpected,
};
use crate::matcher::{spec_check_all_from, Leftover, LeftoverModel, ScanState, ScanStateModel};
use crate::values::{spec_split, split_on};

verus! {

/// The declaration indices of the positional arguments from `i` on,
/// keeping those whose last-only mark equals `want_last`.
pub open spec fn spec_pos_filter(cmd: CommandModel, i: int, want_last: bool) -> Seq<usize>
    decreases cmd.args.len() - i,
{
    if !(0 <= i < cmd.args.len()) {
        Seq::empty()
    } else {
        (if cmd.args[i].arg.is_positional() && cmd.args[i].arg.last == want_last {
            seq![i as usize]
        } else {
            Seq::empty()
        }) + spec_pos_filter(cmd, i + 1, want_last)
    }
}

/// Whether some positional argument from `i` on is marked last-only.
pub open spec fn spec_has_last_from(cmd: CommandModel, i: int) -> bool
    decreases cmd.args.len() - i,
{
    if !(0 <= i < cmd.args.len()) {
        false
    } else {
        (cmd.args[i].arg.is_positional() && cmd.args[i].arg.last) || spec_has_last_from(cmd, i + 1)
    }
}

/// The leftovers from `i` on whose separator mark equals `want`.
pub open spec fn spec_lo_filter(ls: Seq<LeftoverModel>, i: int, want: bool) -> Seq<LeftoverModel>
    decreases ls.len() - i,
{
    if !(0 <= i < ls.len()) {
        Seq::empty()
    } else {
        (if ls[i].after_sep == want {
            seq![ls[i]]
        } else {
            Seq::empty()
        }) + spec_lo_filter(ls, i + 1, want)
    }
}

/// The sum of the least value counts of the positionals `ps[k..]`,
/// saturating.
pub open spec fn spec_sum_min_from(cmd: CommandModel, ps: Seq<usize>, k: int) -> nat
    decreases ps.len() - k,
{
    if !(0 <= k < ps.len()) {
        0
    } else if ps[k] < cmd.args.len() {
        spec_sat_add(
            cmd.args[ps[k] as int].arg.min_values(),
            spec_sum_min_from(cmd, ps, k + 1),
        )
    } else {
        spec_sum_min_from(cmd, ps, k + 1)
    }
}

/// The sum of the greatest value counts of the positionals `ps[k..]`,
/// saturating.
pub open spec fn spec_sum_max_from(cmd: CommandModel, ps: Seq<usize>, k: int) -> nat
    decreases ps.len() - k,
{
    if !(0 <= k < ps.len()) {
        0
    } else if ps[k] < cmd.args.len() {
        spec_sat_add(
            cmd.args[ps[k] as int].arg.max_values(),
            spec_sum_max_from(cmd, ps, k + 1),
        )
    } else {
        spec_sum_max_from(cmd, ps, k + 1)
    }
}

/// Whether every queued token from `qi` on stood after the separator.
pub open spec fn spec_all_after(q: Seq<LeftoverModel>, qi: int) -> bool {
    forall|j: int| qi <= j < q.len() ==> (#[trigger] q[j]).after_sep
}

/// The tokens one positional takes from the queue at `qi`: up to `room`
/// tokens, stopping at the value terminator, which is discarded.
pub open spec fn spec_pos_consume(
    q: Seq<LeftoverModel>,
    qi: int,
    room: nat,
    term: Option<Seq<char>>,
) -> (Seq<LeftoverModel>, int)
    decreases q.len() - qi,
{
    if !(0 <= qi < q.len()) || room == 0 {
        (Seq::empty(), qi)
    } else if term is Some && q[qi].value == term->0 {
        (Seq::empty(), qi + 1)
    } else {
        let r = spec_pos_consume(q, qi + 1, (room - 1) as nat, term);
        (seq![q[qi]] + r.0, r.1)
    }
}

/// The raw values of the taken tokens from `k` on, each split on the
/// delimiter when one is set — except that a token standing after the
/// separator is left whole when the command suppresses delimiting of
/// trailing values.
pub open spec fn spec_split_lo_from(
    raws: Seq<LeftoverModel>,
    d: Option<char>,
    dont_trailing: bool,
    k: int,
) -> Seq<Seq<char>>
    decreases raws.len() - k,
{
    if !(0 <= k < raws.len()) {
        Seq::empty()
    } else {
        (match d {
            Some(dc) => if raws[k].after_sep && dont_trailing {
                seq![raws[k].value]
            } else {
                spec_split(raws[k].value, dc)
            },
            None => seq![raws[k].value],
        }) + spec_split_lo_from(raws, d, dont_trailing, k + 1)
    }
}

/// Fills the positional `ps[k]` from the queue at `qi`; see the module
/// documentation for the skip rule.
pub open spec fn spec_fill_one(
    cmd: CommandModel,
    ps: Seq<usize>,
    k: int,
    q: Seq<LeftoverModel>,
    qi: int,
    slots: Seq<Option<BindingModel>>,
) -> Result<(Seq<Option<BindingModel>>, int), crate::diag::DiagModel> {
    let ai = ps[k] as int;
    let a = cmd.args[ai].arg;
    let disp = spec_arg_display(cmd.args[ai].name, a);
    let m = q.len() - qi;
    let skip = cmd.allow_missing_positional && (m <= spec_sum_min_from(cmd, ps, k + 1) || (
    spec_all_after(q, qi) && spec_sum_max_from(cmd, ps, k + 1) >= m));
    if skip {
        Ok((slots, qi))
    } else {
        let taken = spec_pos_consume(q, qi, a.max_values(), a.value_terminator);
        if taken.0.len() == 0 {
            Ok((slots, taken.1))
        } else if taken.0.len() < a.min_values() {
            Err(crate::diag::DiagModel::Error(spec_msg_few_values(disp)))
        } else {
            let vals = spec_split_lo_from(
                taken.0,
                a.value_delimiter,
                cmd.dont_delimit_trailing_values,
                0,
            );
            match spec_check_all_from(a.value_check, a.ignore_case, vals, 0) {
                Err(bad) => Err(crate::diag::DiagModel::Error(spec_msg_invalid(bad, disp))),
                Ok(checked) => Ok(
                    (
                        slots.update(
                            ai,
                            Some(
                                BindingModel {
                                    values: checked,
                                    count: 1,
                                    source: ValueSource::CommandLine,
                                },
                            ),
                        ),
                        taken.1,
                    ),
                ),
            }
        }
    }
}

/// Fills the positionals `ps[k..]` from the queue at `qi`; a queued token
/// that no positional takes is an error.
pub open spec fn spec_fill(
    cmd: CommandModel,
    ps: Seq<usize>,
    k: int,
    q: Seq<LeftoverModel>,
    qi: int,
    slots: Seq<Option<BindingModel>>,
) -> Result<Seq<Option<BindingModel>>, crate::diag::DiagModel>
    decreases ps.len() - k,
{
    if !(0 <= k < ps.len()) {
        if 0 <= qi < q.len() {
            Err(crate::diag::DiagModel::Error(spec_msg_unexpected(q[qi].value)))
        } else {
            Ok(slots)
        }
    } else if ps[k] < cmd.args.len() {
        match spec_fill_one(cmd, ps, k, q, qi, slots) {
            Err(d) => Err(d),
            Ok((slots2, qi2)) => if qi <= qi2 <= q.len() {
                spec_fill(cmd, ps, k + 1, q, qi2, slots2)
            } else {
                spec_fill(cmd, ps, k + 1, q, qi, slots2)
            },
        }
    } else {
        spec_fill(cmd, ps, k + 1, q, qi, slots)
    }
}

/// Distributes all leftover tokens to the positional arguments. With a
/// last-only positional present, tokens before the separator go to the
/// ordinary positionals and tokens after it to the last-only ones;
/// otherwise all leftovers fill the positionals in order.
pub open spec fn spec_distribute(cmd: CommandModel, st: ScanStateModel) -> Result<
    Seq<Option<BindingModel>>,
    crate::diag::DiagModel,
> {
    if spec_has_last_from(cmd, 0) {
        let qa = spec_lo_filter(st.leftovers, 0, false);
        let qb = spec_lo_filter(st.leftovers, 0, true);
        match spec_fill(cmd, spec_pos_filter(cmd, 0, false), 0, qa, 0, st.slots) {
            Err(d) => Err(d),
            Ok(s1) => spec_fill(cmd, spec_pos_filter(cmd, 0, true), 0, qb, 0, s1),
        }
    } else {
        spec_fill(cmd, spec_pos_filter(cmd, 0, false), 0, st.leftovers, 0, st.slots)
    }
}

/// The declaration indices of positionals with the given last-only mark.
fn pos_filter(cmd: &Command, want_last: bool) -> (r: Vec<usize>)
    ensures
        r@ == spec_pos_filter(cmd@, 0, want_last),
        forall|j: int| 0 <= j < r@.len() ==> (#[trigger] r@[j]) < cmd.args.len(),
{
    let mut acc: Vec<usize> = Vec::new();
    let mut i: usize = 0;
    while i < cmd.args.len()
        invariant
            i <= cmd.args.len(),
            spec_pos_filter(cmd@, 0, want_last) =~= acc@ + spec_pos_filter(
                cmd@,
                i as int,
                want_last,
            ),
            forall|j: int| 0 <= j < acc@.len() ==> (#[trigger] acc@[j]) < cmd.args.len(),
        decreases cmd.args.len() - i,
    {
        let ghost acc0 = acc@;
        let a = &cmd.args[i].arg;
        if a.is_positional() && a.last == want_last {
            acc.push(i);
        }
        proof {
            assert(spec_pos_filter(cmd@, 0, want_last) =~= acc@ + spec_pos_filter(
                cmd@,
                i + 1,
                want_last,
            ));
        }
        i = i + 1;
    }
    proof {
        assert(acc@ + spec_pos_filter(cmd@, cmd@.args.len() as int, want_last) =~= acc@);
    }
    acc
}

/// Whether a last-only positional exists.
fn has_last(cmd: &Command) -> (r: bool)
    ensures
        r == spec_has_last_from(cmd@, 0),
{
    let mut i: usize = cmd.args.len();
    let mut r = false;
    while i > 0
        invariant
            i <= cmd.args.len(),
            r == spec_has_last_from(cmd@, i as int),
        decreases i,
    {
        i = i - 1;
        let a = &cmd.args[i].arg;
        if a.is_positional() && a.last {
            r = true;
        }
    }
    r
}

/// The leftovers with the given separator mark, in order.
fn lo_filter(ls: &Vec<Leftover>, want: bool) -> (r: Vec<Leftover>)
    ensures
        Seq::new(r@.len(), |j: int| r@[j]@) == spec_lo_filter(
            Seq::new(ls@.len(), |j: int| ls@[j]@),
            0,
            want,
        ),
{
    let ghost lsm = Seq::new(ls@.len(), |j: int| ls@[j]@);
    let mut acc: Vec<Leftover> = Vec::new();
    let mut i: usize = 0;
    while i < ls.len()
        invariant
            i <= ls.len(),
            lsm == Seq::new(ls@.len(), |j: int| ls@[j]@),
            spec_lo_filter(lsm, 0, want) =~= Seq::new(acc@.len(), |j: int| acc@[j]@)
                + spec_lo_filter(lsm, i as int, want),
        decreases ls.len() - i,
    {
        if ls[i].after_sep == want {
            acc.push(Leftover { value: ls[i].value.clone(), after_sep: ls[i].after_sep });
        }
        proof {
            assert(spec_lo_filter(lsm, 0, want) =~= Seq::new(acc@.len(), |j: int| acc@[j]@)
                + spec_lo_filter(lsm, i + 1, want));
        }
        i = i + 1;
    }
    proof {
        assert(Seq::new(acc@.len(), |j: int| acc@[j]@) + spec_lo_filter(
            lsm,
            ls@.len() as int,
            want,
        ) =~= Seq::new(acc@.len(), |j: int| acc@[j]@));
    }
    acc
}

/// The saturating sum of least value counts of `ps[k..]`.
fn sum_min_from(cmd: &Command, ps: &Vec<usize>, k: usize) -> (r: usize)
    requires
        k <= ps.len(),
    ensures
        r as nat == spec_sum_min_from(cmd@, ps@, k as int),
{
    let mut i: usize = ps.len();
    let mut r: usize = 0;
    while i > k
        invariant
            k <= i <= ps.len(),
            r as nat == spec_sum_min_from(cmd@, ps@, i as int),
        decreases i,
    {
        i = i - 1;
        if ps[i] < cmd.args.len() {
            r = sat_add(cmd.args[ps[i]].arg.min_values(), r);
        }
    }
    r
}

/// The saturating sum of greatest value counts of `ps[k..]`.
fn sum_max_from(cmd: &Command, ps: &Vec<usize>, k: usize) -> (r: usize)
    requires
        k <= ps.len(),
    ensures
        r as nat == spec_sum_max_from(cmd@, ps@, k as int),
{
    let mut i: usize = ps.len();
    let mut r: usize = 0;
    while i > k
        invariant
            k <= i <= ps.len(),
            r as nat == spec_sum_max_from(cmd@, ps@, i as int),
        decreases i,
    {
        i = i - 1;
        if ps[i] < cmd.args.len() {
            r = sat_add(cmd.args[ps[i]].arg.max_values(), r);
        }
    }
    r
}

/// Whether every queued token from `qi` on stood after the separator.
fn all_after(q: &Vec<Leftover>, qi: usize) -> (r: bool)
    requires
        qi <= q.len(),
    ensures
        r == spec_all_after(Seq::new(q@.len(), |j: int| q@[j]@), qi as int),
{
    let ghost qm = Seq::new(q@.len(), |j: int| q@[j]@);
    let mut i: usize = qi;
    while i < q.len()
        invariant
            qi <= i <= q.len(),
            qm == Seq::new(q@.len(), |j: int| q@[j]@),
            forall|j: int| qi <= j < i ==> (#[trigger] qm[j]).after_sep,
        decreases q.len() - i,
    {
        if !q[i].after_sep {
            proof {
                assert(!(#[trigger] qm[i as int]).after_sep);
                assert(!spec_all_after(qm, qi as int));
            }
            return false;
        }
        i = i + 1;
    }
    true
}

/// Takes up to `room` tokens for one positional; see `spec_pos_consume`.
fn pos_consume(q: &Vec<Leftover>, qi: usize, room: usize, term: &Option<String>) -> (r: (
    Vec<Leftover>,
    usize,
))
    requires
        qi <= q.len(),
    ensures
        (Seq::new(r.0@.len(), |j: int| r.0@[j]@), r.1 as int) == spec_pos_consume(
            Seq::new(q@.len(), |j: int| q@[j]@),
            qi as int,
            room as nat,
            term.deep_view(),
        ),
        qi <= r.1 <= q.len(),
    decreases q.len() - qi,
{
    let ghost qm = Seq::new(q@.len(), |j: int| q@[j]@);
    if qi >= q.len() || room == 0 {
        let r = (Vec::<Leftover>::new(), qi);
        proof {
            assert(Seq::new(r.0@.len(), |j: int| r.0@[j]@) =~= Seq::<LeftoverModel>::empty());
        }
        return r;
    }
    if let Some(tm) = term {
        if crate::strutil::str_eq(q[qi].value.as_str(), tm.as_str()) {
            let r = (Vec::<Leftover>::new(), qi + 1);
            proof {
                assert(Seq::new(r.0@.len(), |j: int| r.0@[j]@) =~= Seq::<LeftoverModel>::empty());
            }
            return r;
        }
    }
    let (mut rest, next) = pos_consume(q, qi + 1, room - 1, term);
    let ghost restm = Seq::new(rest@.len(), |j: int| rest@[j]@);
    rest.insert(0, Leftover { value: q[qi].value.clone(), after_sep: q[qi].after_sep });
    proof {
        assert(Seq::new(rest@.len(), |j: int| rest@[j]@) =~= seq![qm[qi as int]] + restm);
    }
    (rest, next)
}

/// Splits the taken tokens into raw values; see `spec_split_lo_from`.
fn split_lo(raws: Vec<Leftover>, d: Option<char>, dont_trailing: bool) -> (r: Vec<String>)
    ensures
        r.deep_view() == spec_split_lo_from(
            Seq::new(raws@.len(), |j: int| raws@[j]@),
            d,
            dont_trailing,
            0,
        ),
{
    let ghost rm = Seq::new(raws@.len(), |j: int| raws@[j]@);
    let mut acc: Vec<String> = Vec::new();
    let mut k: usize = 0;
    while k < raws.len()
        invariant
            k <= raws.len(),
            rm == Seq::new(raws@.len(), |j: int| raws@[j]@),
            spec_split_lo_from(rm, d, dont_trailing, 0) =~= acc.deep_view() + spec_split_lo_from(
                rm,
                d,
                dont_trailing,
                k as int,
            ),
        decreases raws.len() - k,
    {
        let ghost acc0 = acc.deep_view();
        let mut piece: Vec<String> = match d {
            Some(dc) => {
                if raws[k].after_sep && dont_trailing {
                    let mut v: Vec<String> = Vec::new();
                    v.push(raws[k].value.clone());
                    proof {
                        assert(v.deep_view() =~= seq![rm[k as int].value]);
                    }
                    v
                } else {
                    split_on(raws[k].value.as_str(), dc)
                }
            },
            None => {
                let mut v: Vec<String> = Vec::new();
                v.push(raws[k].value.clone());
                proof {
                    assert(v.deep_view() =~= seq![rm[k as int].value]);
                }
                v
            },
        };
        let ghost piecem = piece.deep_view();
        acc.append(&mut piece);
        proof {
            assert(acc.deep_view() =~= acc0 + piecem);
            assert(spec_split_lo_from(rm, d, dont_trailing, 0) =~= acc.deep_view()
                + spec_split_lo_from(rm, d, dont_trailing, k + 1));
        }
        k = k + 1;
    }
    proof {
        assert(acc.deep_view() + spec_split_lo_from(rm, d, dont_trailing, raws@.len() as int)
            =~= acc.deep_view());
    }
    acc
}

/// Fills one positional; see `spec_fill_one`.
fn fill_one(
    cmd: &Command,
    ps: &Vec<usize>,
    k: usize,
    q: &Vec<Leftover>,
    qi: usize,
    slots: Vec<Option<Binding>>,
) -> (r: Result<(Vec<Option<Binding>>, usize), crate::diag::Diag>)
    requires
        k < ps.len(),
        ps@[k as int] < cmd.args.len(),
        qi <= q.len(),
        slots_view(slots).len() == cmd@.args.len(),
    ensures
        match r {
            Ok(p) => spec_fill_one(
                cmd@,
                ps@,
                k as int,
                Seq::new(q@.len(), |j: int| q@[j]@),
                qi as int,
                slots_view(slots),
            ) == Ok::<_, crate::diag::DiagModel>((slots_view(p.0), p.1 as int)) && qi <= p.1
                <= q.len() && slots_view(p.0).len() == cmd@.args.len(),
            Err(d) => spec_fill_one(
                cmd@,
                ps@,
                k as int,
                Seq::new(q@.len(), |j: int| q@[j]@),
                qi as int,
                slots_view(slots),
            ) == Err::<(Seq<Option<BindingModel>>, int), _>(d@),
        },
{
    let ghost qm = Seq::new(q@.len(), |j: int| q@[j]@);
    let ghost slots0 = slots_view(slots);
    let ai = ps[k];
    let a = &cmd.args[ai].arg;
    proof {
        assert(a@ == cmd@.args[ai as int].arg);
        assert(cmd.args@[ai as int].name@ == cmd@.args[ai as int].name);
    }
    let m = q.len() - qi;
    let skip = cmd.allow_missing_positional && (m <= sum_min_from(cmd, ps, k + 1) || (all_after(
        q,
        qi,
    ) && sum_max_from(cmd, ps, k + 1) >= m));
    if skip {
        return Ok((slots, qi));
    }
    let (taken, qi2) = pos_consume(q, qi, a.max_values(), &a.value_terminator);
    if taken.len() == 0 {
        return Ok((slots, qi2));
    }
    if taken.len() < a.min_values() {
        let disp = arg_display(&cmd.args[ai].name, a);
        return Err(crate::diag::Diag::Error(msg_few_values(disp.as_str())));
    }
    let vals = split_lo(taken, a.value_delimiter, cmd.dont_delimit_trailing_values);
    match crate::matcher::check_all_values(&a.value_check, a.ignore_case, &vals) {
        Err(bad) => {
            let disp = arg_display(&cmd.args[ai].name, a);
            Err(crate::diag::Diag::Error(msg_invalid(bad.as_str(), disp.as_str())))
        },
        Ok(checked) => {
            let mut slots = slots;
            slots[ai] = Some(Binding { values: checked, count: 1, source: ValueSource::CommandLine });
            proof {
                assert(slots_view(slots) =~~= spec_fill_one(
                    cmd@,
                    ps@,
                    k as int,
                    qm,
                    qi as int,
                    slots0,
                )->Ok_0.0);
            }
            Ok((slots, qi2))
        },
    }
}

/// Fills the positionals `ps[k..]`; see `spec_fill`.
fn fill(
    cmd: &Command,
    ps: &Vec<usize>,
    k: usize,
    q: &Vec<Leftover>,
    qi: usize,
    slots: Vec<Option<Binding>>,
) -> (r: Result<Vec<Option<Binding>>, crate::diag::Diag>)
    requires
        k <= ps.len(),
        qi <= q.len(),
        forall|j: int| 0 <= j < ps@.len() ==> (#[trigger] ps@[j]) < cmd.args.len(),
        slots_view(slots).len() == cmd@.args.len(),
    ensures
        match r {
            Ok(s2) => spec_fill(
                cmd@,
                ps@,
                k as int,
                Seq::new(q@.len(), |j: int| q@[j]@),
                qi as int,
                slots_view(slots),
            ) == Ok::<_, crate::diag::DiagModel>(slots_view(s2)) && slots_view(s2).len()
                == cmd@.args.len(),
            Err(d) => spec_fill(
                cmd@,
                ps@,
                k as int,
                Seq::new(q@.len(), |j: int| q@[j]@),
                qi as int,
                slots_view(slots),
            ) == Err::<Seq<Option<BindingModel>>, _>(d@),
        },
    decreases ps.len() - k,
{
    if k >= ps.len() {
        if qi < q.len() {
            return Err(crate::diag::Diag::Error(msg_unexpected(q[qi].value.as_str())));
        }
        return Ok(slots);
    }
    match fill_one(cmd, ps, k, q, qi, slots) {
        Err(d) => Err(d),
        Ok((slots2, qi2)) => fill(cmd, ps, k + 1, q, qi2, slots2),
    }
}

/// Distributes all leftover tokens to the positionals; see
/// `spec_distribute`.
pub fn distribute(cmd: &Command, st: ScanState) -> (r: Result<Vec<Option<Binding>>, crate::diag::Diag>)
    requires
        st@.slots.len() == cmd@.args.len(),
    ensures
        match r {
            Ok(s2) => spec_distribute(cmd@, st@) == Ok::<_, crate::diag::DiagModel>(
                slots_view(s2),
            ) && slots_view(s2).len() == cmd@.args.len(),
            Err(d) => spec_distribute(cmd@, st@) == Err::<Seq<Option<BindingModel>>, _>(d@),
        },
{
    let ScanState { slots, leftovers, saw_sep: _, raw_mode: _ } = st;
    if has_last(cmd) {
        let qa = lo_filter(&leftovers, false);
        let qb = lo_filter(&leftovers, true);
        let psa = pos_filter(cmd, false);
        let psb = pos_filter(cmd, true);
        match fill(cmd, &psa, 0, &qa, 0, slots) {
            Err(d) => Err(d),
            Ok(s1) => fill(cmd, &psb, 0, &qb, 0, s1),
        }
    } else {
        let psa = pos_filter(cmd, false);
        match fill(cmd, &psa, 0, &leftovers, 0, slots) {
            Err(d) => Err(d),
            Ok(s1) => Ok(s1),
        }
    }
}

} // verus!
