//! Classified short-circuit outcomes of a run and the text of each usage
//! error.
use vstd::prelude::*;

use crate::command::ArgModel;
use crate::strutil::push_char;

verus! {

/// A classified outcome that ends matching early: a help or version
/// display (the flag says whether the long form was requested), a usage
/// display for missing input, or a usage error with its message.
#[derive(Debug)]
pub enum Diag {
    Help(bool),
    Version(bool),
    Usage,
    Error(String),
}

/// The mathematical value of a `Diag`.
#[verifier::ext_equal]
pub enum DiagModel {
    Help(bool),
    Version(bool),
    Usage,
    Error(Seq<char>),
}

impl View for Diag {
    type V = DiagModel;

    open spec fn view(&self) -> DiagModel {
        match self {
            Diag::Help(long) => DiagModel::Help(*long),
            Diag::Version(long) => DiagModel::Version(*long),
            Diag::Usage => DiagModel::Usage,
            Diag::Error(msg) => DiagModel::Error(msg@),
        }
    }
}

/// How an argument is shown in messages: its long flag if it has one, its
/// short flag otherwise, and its identifier when it is positional.
pub open spec fn spec_arg_display(name: Seq<char>, a: ArgModel) -> Seq<char> {
    if a.long is Some {
        "--"@ + a.long->0
    } else if a.short is Some {
        "-"@ + seq![a.short->0]
    } else {
        name
    }
}

/// Renders an argument's display name for messages.
pub fn arg_display(name: &String, a: &crate::command::Arg) -> (r: String)
    ensures
        r@ == spec_arg_display(name@, a@),
{
    match &a.long {
        Some(l) => {
            let mut s = String::new();
            s.append("--");
            s.append(l.as_str());
            proof {
                assert(s@ =~= spec_arg_display(name@, a@));
            }
            s
        },
        None => match a.short {
            Some(c) => {
                let mut s = String::new();
                s.append("-");
                push_char(&mut s, c);
                proof {
                    assert(s@ =~= spec_arg_display(name@, a@));
                }
                s
            },
            None => name.clone(),
        },
    }
}

/// "unexpected argument '<token>'"
pub open spec fn spec_msg_unexpected(t: Seq<char>) -> Seq<char> {
    "unexpected argument '"@ + t + "'"@
}

pub fn msg_unexpected(t: &str) -> (r: String)
    ensures
        r@ == spec_msg_unexpected(t@),
{
    let mut s = String::new();
    s.append("unexpected argument '");
    s.append(t);
    s.append("'");
    proof {
        assert(s@ =~= spec_msg_unexpected(t@));
    }
    s
}

/// "ambiguous argument '--<prefix>' matches more than one long option"
pub open spec fn spec_msg_ambiguous(name: Seq<char>) -> Seq<char> {
    "ambiguous argument '--"@ + name + "' matches more than one long option"@
}

pub fn msg_ambiguous(name: &str) -> (r: String)
    ensures
        r@ == spec_msg_ambiguous(name@),
{
    let mut s = String::new();
    s.append("ambiguous argument '--");
    s.append(name);
    s.append("' matches more than one long option");
    proof {
        assert(s@ =~= spec_msg_ambiguous(name@));
    }
    s
}

/// "unexpected argument '-<letter>'"
pub open spec fn spec_msg_unknown_short(c: char) -> Seq<char> {
    "unexpected argument '-"@ + seq![c] + "'"@
}

pub fn msg_unknown_short(c: char) -> (r: String)
    ensures
        r@ == spec_msg_unknown_short(c),
{
    let mut s = String::new();
    s.append("unexpected argument '-");
    push_char(&mut s, c);
    s.append("'");
    proof {
        assert(s@ =~= spec_msg_unknown_short(c));
    }
    s
}

/// "the argument '<arg>' cannot be used multiple times"
pub open spec fn spec_msg_duplicate(disp: Seq<char>) -> Seq<char> {
    "the argument '"@ + disp + "' cannot be used multiple times"@
}

pub fn msg_duplicate(disp: &str) -> (r: String)
    ensures
        r@ == spec_msg_duplicate(disp@),
{
    let mut s = String::new();
    s.append("the argument '");
    s.append(disp);
    s.append("' cannot be used multiple times");
    proof {
        assert(s@ =~= spec_msg_duplicate(disp@));
    }
    s
}

/// "a value is required for '<arg>' but none was supplied"
pub open spec fn spec_msg_missing_value(disp: Seq<char>) -> Seq<char> {
    "a value is required for '"@ + disp + "' but none was supplied"@
}

pub fn msg_missing_value(disp: &str) -> (r: String)
    ensures
        r@ == spec_msg_missing_value(disp@),
{
    let mut s = String::new();
    s.append("a value is required for '");
    s.append(disp);
    s.append("' but none was supplied");
    proof {
        assert(s@ =~= spec_msg_missing_value(disp@));
    }
    s
}

/// "too few values for '<arg>'"
pub open spec fn spec_msg_few_values(disp: Seq<char>) -> Seq<char> {
    "too few values for '"@ + disp + "'"@
}

pub fn msg_few_values(disp: &str) -> (r: String)
    ensures
        r@ == spec_msg_few_values(disp@),
{
    let mut s = String::new();
    s.append("too few values for '");
    s.append(disp);
    s.append("'");
    proof {
        assert(s@ =~= spec_msg_few_values(disp@));
    }
    s
}

/// "unexpected value for '<arg>'"
pub open spec fn spec_msg_too_many(disp: Seq<char>) -> Seq<char> {
    "unexpected value for '"@ + disp + "'"@
}

pub fn msg_too_many(disp: &str) -> (r: String)
    ensures
        r@ == spec_msg_too_many(disp@),
{
    let mut s = String::new();
    s.append("unexpected value for '");
    s.append(disp);
    s.append("'");
    proof {
        assert(s@ =~= spec_msg_too_many(disp@));
    }
    s
}

/// "invalid value '<value>' for '<arg>'"
pub open spec fn spec_msg_invalid(v: Seq<char>, disp: Seq<char>) -> Seq<char> {
    "invalid value '"@ + v + "' for '"@ + disp + "'"@
}

pub fn msg_invalid(v: &str, disp: &str) -> (r: String)
    ensures
        r@ == spec_msg_invalid(v@, disp@),
{
    let mut s = String::new();
    s.append("invalid value '");
    s.append(v);
    s.append("' for '");
    s.append(disp);
    s.append("'");
    proof {
        assert(s@ =~= spec_msg_invalid(v@, disp@));
    }
    s
}

/// "equal sign is needed when assigning values to '<arg>'"
pub open spec fn spec_msg_equals(disp: Seq<char>) -> Seq<char> {
    "equal sign is needed when assigning values to '"@ + disp + "'"@
}

pub fn msg_equals(disp: &str) -> (r: String)
    ensures
        r@ == spec_msg_equals(disp@),
{
    let mut s = String::new();
    s.append("equal sign is needed when assigning values to '");
    s.append(disp);
    s.append("'");
    proof {
        assert(s@ =~= spec_msg_equals(disp@));
    }
    s
}

/// "the following required argument was not provided: <arg>"
pub open spec fn spec_msg_required(disp: Seq<char>) -> Seq<char> {
    "the following required argument was not provided: "@ + disp
}

pub fn msg_required(disp: &str) -> (r: String)
    ensures
        r@ == spec_msg_required(disp@),
{
    let mut s = String::new();
    s.append("the following required argument was not provided: ");
    s.append(disp);
    proof {
        assert(s@ =~= spec_msg_required(disp@));
    }
    s
}

/// "the argument '<a>' requires '<b>' but it was not provided"
pub open spec fn spec_msg_requires(a: Seq<char>, b: Seq<char>) -> Seq<char> {
    "the argument '"@ + a + "' requires '"@ + b + "' but it was not provided"@
}

pub fn msg_requires(a: &str, b: &str) -> (r: String)
    ensures
        r@ == spec_msg_requires(a@, b@),
{
    let mut s = String::new();
    s.append("the argument '");
    s.append(a);
    s.append("' requires '");
    s.append(b);
    s.append("' but it was not provided");
    proof {
        assert(s@ =~= spec_msg_requires(a@, b@));
    }
    s
}

/// "the argument '<a>' cannot be used with '<b>'"
pub open spec fn spec_msg_conflict(a: Seq<char>, b: Seq<char>) -> Seq<char> {
    "the argument '"@ + a + "' cannot be used with '"@ + b + "'"@
}

pub fn msg_conflict(a: &str, b: &str) -> (r: String)
    ensures
        r@ == spec_msg_conflict(a@, b@),
{
    let mut s = String::new();
    s.append("the argument '");
    s.append(a);
    s.append("' cannot be used with '");
    s.append(b);
    s.append("'");
    proof {
        assert(s@ =~= spec_msg_conflict(a@, b@));
    }
    s
}

/// "the argument '<a>' cannot be used with one or more of the other
/// specified arguments"
pub open spec fn spec_msg_exclusive(a: Seq<char>) -> Seq<char> {
    "the argument '"@ + a + "' cannot be used with one or more of the other specified arguments"@
}

pub fn msg_exclusive(a: &str) -> (r: String)
    ensures
        r@ == spec_msg_exclusive(a@),
{
    let mut s = String::new();
    s.append("the argument '");
    s.append(a);
    s.append("' cannot be used with one or more of the other specified arguments");
    proof {
        assert(s@ =~= spec_msg_exclusive(a@));
    }
    s
}

} // verus!
