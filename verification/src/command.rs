//! The in-memory description of a command and its arguments: pure data with
//! a well-formedness predicate, checked once before any matching runs.
//!
//! A `Command` owns an ordered list of named arguments; insertion order is
//! display and evaluation order. Mutually exclusive settings of the source
//! format (a fixed count versus a minimum/maximum value range, an enumerated
//! value set versus a built-in value interpreter) are tagged unions here, so
//! the invalid combinations cannot be represented at all.
use vstd::prelude::*;

use crate::strutil::{str_eq, vec_contains_char, vec_contains_str};

verus! {

/// The accumulation or short-circuit semantics applied when an argument is
/// bound.
#[derive(Clone, Copy, Debug, PartialEq, Eq, Structural)]
pub enum ArgAction {
    SetValue,
    Append,
    Count,
    SetTrue,
    SetFalse,
    Help,
    HelpShort,
    HelpLong,
    Version,
}

/// Color preference carried through for the outer layer; the engine itself
/// never styles text.
#[derive(Clone, Copy, Debug, PartialEq, Eq, Structural)]
pub enum ColorChoice {
    Auto,
    Always,
    Never,
}

/// A hint about the kind of value an argument expects, carried through for
/// completion generators; it does not affect matching.
#[derive(Clone, Copy, Debug, PartialEq, Eq, Structural)]
pub enum ValueHint {
    Unknown,
    Other,
    AnyPath,
    FilePath,
    DirPath,
    ExecutablePath,
    CommandName,
    CommandString,
    CommandWithArguments,
    Username,
    Hostname,
    Url,
    EmailAddress,
}

/// One of the built-in value interpreters: strict boolean literals,
/// boolean-ish words, or falsey-string interpretation (which never rejects).
#[derive(Clone, Copy, Debug, PartialEq, Eq, Structural)]
pub enum TypedValueParser {
    Bool,
    Boolish,
    Falsey,
}

/// How raw values are checked or interpreted: accepted verbatim, checked
/// against an enumerated set, or run through a built-in interpreter.
#[derive(Debug, Clone)]
pub enum ValueCheck {
    Any,
    OneOf(Vec<String>),
    Typed(TypedValueParser),
}

/// The mathematical value of a `ValueCheck`.
#[verifier::ext_equal]
pub enum ValueCheckModel {
    Any,
    OneOf(Seq<Seq<char>>),
    Typed(TypedValueParser),
}

impl View for ValueCheck {
    type V = ValueCheckModel;

    open spec fn view(&self) -> ValueCheckModel {
        match self {
            ValueCheck::Any => ValueCheckModel::Any,
            ValueCheck::OneOf(vs) => ValueCheckModel::OneOf(vs.deep_view()),
            ValueCheck::Typed(t) => ValueCheckModel::Typed(*t),
        }
    }
}

impl ValueCheck {
    /// A fresh copy with the same meaning.
    pub fn duplicate(&self) -> (r: ValueCheck)
        ensures
            r@ == self@,
    {
        match self {
            ValueCheck::Any => ValueCheck::Any,
            ValueCheck::OneOf(vs) => {
                let r = ValueCheck::OneOf(crate::strutil::clone_strings(vs));
                proof {
                    assert(r@ =~~= self@);
                }
                r
            },
            ValueCheck::Typed(t) => ValueCheck::Typed(*t),
        }
    }
}

/// The closed range of raw values one occurrence of an argument consumes.
/// `Auto` means: one value for value-taking actions, zero for the others.
#[derive(Clone, Copy, Debug, PartialEq, Eq, Structural)]
pub enum Arity {
    Auto,
    Exact(usize),
    Between(usize, usize),
    AtLeast(usize),
    AtMost(usize),
}

/// One argument's full behavioral contract.
#[derive(Debug, Clone)]
pub struct Arg {
    pub short: Option<char>,
    pub long: Option<String>,
    pub aliases: Vec<String>,
    pub visible_aliases: Vec<String>,
    pub short_aliases: Vec<char>,
    pub visible_short_aliases: Vec<char>,
    pub index: Option<usize>,
    pub trailing_var_arg: bool,
    pub last: bool,
    pub required: bool,
    pub requires: Option<String>,
    pub exclusive: bool,
    pub global: bool,
    pub action: ArgAction,
    pub value_check: ValueCheck,
    pub arity: Arity,
    pub value_names: Vec<String>,
    pub value_hint: Option<ValueHint>,
    pub ignore_case: bool,
    pub allow_hyphen_values: bool,
    pub allow_negative_numbers: bool,
    pub require_equals: bool,
    pub value_delimiter: Option<char>,
    pub value_terminator: Option<String>,
    pub default_values: Vec<String>,
    pub default_missing_values: Vec<String>,
    pub env: Option<String>,
    pub help: Option<String>,
    pub long_help: Option<String>,
    pub hide: bool,
    pub required_unless_present: Option<String>,
    pub required_unless_present_all: Vec<String>,
    pub required_unless_present_any: Vec<String>,
    pub conflicts_with: Vec<String>,
    pub overrides_with: Vec<String>,
}

/// The mathematical value of an `Arg`.
#[verifier::ext_equal]
pub struct ArgModel {
    pub short: Option<char>,
    pub long: Option<Seq<char>>,
    pub aliases: Seq<Seq<char>>,
    pub visible_aliases: Seq<Seq<char>>,
    pub short_aliases: Seq<char>,
    pub visible_short_aliases: Seq<char>,
    pub index: Option<usize>,
    pub trailing_var_arg: bool,
    pub last: bool,
    pub required: bool,
    pub requires: Option<Seq<char>>,
    pub exclusive: bool,
    pub global: bool,
    pub action: ArgAction,
    pub value_check: ValueCheckModel,
    pub arity: Arity,
    pub value_names: Seq<Seq<char>>,
    pub value_hint: Option<ValueHint>,
    pub ignore_case: bool,
    pub allow_hyphen_values: bool,
    pub allow_negative_numbers: bool,
    pub require_equals: bool,
    pub value_delimiter: Option<char>,
    pub value_terminator: Option<Seq<char>>,
    pub default_values: Seq<Seq<char>>,
    pub default_missing_values: Seq<Seq<char>>,
    pub env: Option<Seq<char>>,
    pub help: Option<Seq<char>>,
    pub long_help: Option<Seq<char>>,
    pub hide: bool,
    pub required_unless_present: Option<Seq<char>>,
    pub required_unless_present_all: Seq<Seq<char>>,
    pub required_unless_present_any: Seq<Seq<char>>,
    pub conflicts_with: Seq<Seq<char>>,
    pub overrides_with: Seq<Seq<char>>,
}

impl View for Arg {
    type V = ArgModel;

    open spec fn view(&self) -> ArgModel {
        ArgModel {
            short: self.short,
            long: self.long.deep_view(),
            aliases: self.aliases.deep_view(),
            visible_aliases: self.visible_aliases.deep_view(),
            short_aliases: self.short_aliases@,
            visible_short_aliases: self.visible_short_aliases@,
            index: self.index,
            trailing_var_arg: self.trailing_var_arg,
            last: self.last,
            required: self.required,
            requires: self.requires.deep_view(),
            exclusive: self.exclusive,
            global: self.global,
            action: self.action,
            value_check: self.value_check@,
            arity: self.arity,
            value_names: self.value_names.deep_view(),
            value_hint: self.value_hint,
            ignore_case: self.ignore_case,
            allow_hyphen_values: self.allow_hyphen_values,
            allow_negative_numbers: self.allow_negative_numbers,
            require_equals: self.require_equals,
            value_delimiter: self.value_delimiter,
            value_terminator: self.value_terminator.deep_view(),
            default_values: self.default_values.deep_view(),
            default_missing_values: self.default_missing_values.deep_view(),
            env: self.env.deep_view(),
            help: self.help.deep_view(),
            long_help: self.long_help.deep_view(),
            hide: self.hide,
            required_unless_present: self.required_unless_present.deep_view(),
            required_unless_present_all: self.required_unless_present_all.deep_view(),
            required_unless_present_any: self.required_unless_present_any.deep_view(),
            conflicts_with: self.conflicts_with.deep_view(),
            overrides_with: self.overrides_with.deep_view(),
        }
    }
}

/// The model of an argument left entirely at its defaults.
pub open spec fn default_arg_model() -> ArgModel {
    ArgModel {
        short: None,
        long: None,
        aliases: Seq::empty(),
        visible_aliases: Seq::empty(),
        short_aliases: Seq::empty(),
        visible_short_aliases: Seq::empty(),
        index: None,
        trailing_var_arg: false,
        last: false,
        required: false,
        requires: None,
        exclusive: false,
        global: false,
        action: ArgAction::SetValue,
        value_check: ValueCheckModel::Any,
        arity: Arity::Auto,
        value_names: Seq::empty(),
        value_hint: None,
        ignore_case: false,
        allow_hyphen_values: false,
        allow_negative_numbers: false,
        require_equals: false,
        value_delimiter: None,
        value_terminator: None,
        default_values: Seq::empty(),
        default_missing_values: Seq::empty(),
        env: None,
        help: None,
        long_help: None,
        hide: false,
        required_unless_present: None,
        required_unless_present_all: Seq::empty(),
        required_unless_present_any: Seq::empty(),
        conflicts_with: Seq::empty(),
        overrides_with: Seq::empty(),
    }
}

impl Arg {
    /// An argument with every setting at its default: a single-value `Set`
    /// argument with no matchers, no constraints and no defaults.
    pub fn new() -> (r: Arg)
        ensures
            r@ == default_arg_model(),
    {
        let r = Arg {
            short: None,
            long: None,
            aliases: Vec::new(),
            visible_aliases: Vec::new(),
            short_aliases: Vec::new(),
            visible_short_aliases: Vec::new(),
            index: None,
            trailing_var_arg: false,
            last: false,
            required: false,
            requires: None,
            exclusive: false,
            global: false,
            action: ArgAction::SetValue,
            value_check: ValueCheck::Any,
            arity: Arity::Auto,
            value_names: Vec::new(),
            value_hint: None,
            ignore_case: false,
            allow_hyphen_values: false,
            allow_negative_numbers: false,
            require_equals: false,
            value_delimiter: None,
            value_terminator: None,
            default_values: Vec::new(),
            default_missing_values: Vec::new(),
            env: None,
            help: None,
            long_help: None,
            hide: false,
            required_unless_present: None,
            required_unless_present_all: Vec::new(),
            required_unless_present_any: Vec::new(),
            conflicts_with: Vec::new(),
            overrides_with: Vec::new(),
        };
        proof {
            assert(r@.aliases =~= default_arg_model().aliases);
            assert(r@.visible_aliases =~= default_arg_model().visible_aliases);
            assert(r@.short_aliases =~= default_arg_model().short_aliases);
            assert(r@.visible_short_aliases =~= default_arg_model().visible_short_aliases);
            assert(r@.value_names =~= default_arg_model().value_names);
            assert(r@.default_values =~= default_arg_model().default_values);
            assert(r@.default_missing_values =~= default_arg_model().default_missing_values);
            assert(r@.required_unless_present_all =~= default_arg_model().required_unless_present_all);
            assert(r@.required_unless_present_any =~= default_arg_model().required_unless_present_any);
            assert(r@.conflicts_with =~= default_arg_model().conflicts_with);
            assert(r@.overrides_with =~= default_arg_model().overrides_with);
            assert(r@.value_check is Any);
        }
        r
    }
}

impl ArgModel {
    /// An argument with neither a short nor a long matcher binds by
    /// position.
    pub open spec fn is_positional(self) -> bool {
        self.short is None && self.long is None
    }

    /// Whether the action itself consumes values when the arity is `Auto`.
    pub open spec fn action_takes_values(self) -> bool {
        self.action is SetValue || self.action is Append
    }

    /// The fewest raw values one occurrence must consume.
    pub open spec fn min_values(self) -> nat {
        match self.arity {
            Arity::Auto => if self.action_takes_values() {
                1
            } else {
                0
            },
            Arity::Exact(n) => n as nat,
            Arity::Between(a, b) => a as nat,
            Arity::AtLeast(a) => a as nat,
            Arity::AtMost(b) => 0,
        }
    }

    /// The most raw values one occurrence may consume.
    pub open spec fn max_values(self) -> nat {
        match self.arity {
            Arity::Auto => if self.action_takes_values() {
                1
            } else {
                0
            },
            Arity::Exact(n) => n as nat,
            Arity::Between(a, b) => b as nat,
            Arity::AtLeast(a) => usize::MAX as nat,
            Arity::AtMost(b) => b as nat,
        }
    }

    /// Whether the argument's result is a sequence rather than one value.
    pub open spec fn spec_is_many(self) -> bool {
        match self.arity {
            Arity::Auto => self.value_delimiter is Some,
            _ => self.max_values() > 1,
        }
    }

    /// Whether `c` is this argument's short letter or one of its short
    /// aliases.
    pub open spec fn has_short(self, c: char) -> bool {
        self.short == Some(c) || self.short_aliases.contains(c) || self.visible_short_aliases.contains(c)
    }

    /// Whether `name` is this argument's long name or one of its aliases.
    pub open spec fn has_long(self, name: Seq<char>) -> bool {
        self.long == Some(name) || self.aliases.contains(name) || self.visible_aliases.contains(
            name,
        )
    }

    /// Whether `p` is a proper or improper prefix of this argument's long
    /// name or of one of its aliases.
    pub open spec fn has_long_prefix(self, p: Seq<char>) -> bool {
        ||| (self.long is Some && p.is_prefix_of(self.long->0))
        ||| (exists|i: int| 0 <= i < self.aliases.len() && p.is_prefix_of(#[trigger] self.aliases[i]))
        ||| (exists|i: int|
            0 <= i < self.visible_aliases.len() && p.is_prefix_of(
                #[trigger] self.visible_aliases[i],
            ))
    }

    /// The arity settings are satisfiable: a range has its floor below its
    /// ceiling, and only the value-taking actions may set an explicit
    /// arity — a boolean, counting, help or version action with one is a
    /// specification defect.
    pub open spec fn wf(self) -> bool {
        &&& match self.arity {
            Arity::Between(a, b) => a <= b,
            _ => true,
        }
        &&& (self.action_takes_values() || self.arity is Auto)
    }
}

impl Arg {
    /// Whether this argument's result is a sequence rather than one value:
    /// true when a set arity admits more than one value, and otherwise when
    /// a value delimiter is configured.
    pub fn is_many(&self) -> (r: bool)
        ensures
            r == self@.spec_is_many(),
    {
        match self.arity {
            Arity::Auto => self.value_delimiter.is_some(),
            Arity::Exact(n) => n > 1,
            Arity::Between(_, b) => b > 1,
            Arity::AtLeast(_) => true,
            Arity::AtMost(b) => b > 1,
        }
    }

    /// The fewest raw values one occurrence must consume.
    pub fn min_values(&self) -> (r: usize)
        ensures
            r as nat == self@.min_values(),
    {
        match self.arity {
            Arity::Auto => match self.action {
                ArgAction::SetValue | ArgAction::Append => 1,
                _ => 0,
            },
            Arity::Exact(n) => n,
            Arity::Between(a, _) => a,
            Arity::AtLeast(a) => a,
            Arity::AtMost(_) => 0,
        }
    }

    /// The most raw values one occurrence may consume.
    pub fn max_values(&self) -> (r: usize)
        ensures
            r as nat == self@.max_values(),
    {
        match self.arity {
            Arity::Auto => match self.action {
                ArgAction::SetValue | ArgAction::Append => 1,
                _ => 0,
            },
            Arity::Exact(n) => n,
            Arity::Between(_, b) => b,
            Arity::AtLeast(_) => usize::MAX,
            Arity::AtMost(b) => b,
        }
    }

    /// Whether this argument binds by position.
    pub fn is_positional(&self) -> (r: bool)
        ensures
            r == self@.is_positional(),
    {
        self.short.is_none() && self.long.is_none()
    }

    /// Whether `c` matches this argument's short letter or a short alias.
    pub fn matches_short(&self, c: char) -> (r: bool)
        ensures
            r == self@.has_short(c),
    {
        if let Some(s) = self.short {
            if s == c {
                return true;
            }
        }
        if vec_contains_char(&self.short_aliases, c) {
            return true;
        }
        vec_contains_char(&self.visible_short_aliases, c)
    }

    /// Whether `name` matches this argument's long name or a long alias.
    pub fn matches_long(&self, name: &str) -> (r: bool)
        ensures
            r == self@.has_long(name@),
    {
        if let Some(l) = &self.long {
            if str_eq(l.as_str(), name) {
                return true;
            }
        }
        if vec_contains_str(&self.aliases, name) {
            return true;
        }
        vec_contains_str(&self.visible_aliases, name)
    }
}

/// An argument together with its identifier.
#[derive(Debug, Clone)]
pub struct NamedArg {
    pub name: String,
    pub arg: Arg,
}

/// The mathematical value of a `NamedArg`.
#[verifier::ext_equal]
pub struct NamedArgModel {
    pub name: Seq<char>,
    pub arg: ArgModel,
}

impl View for NamedArg {
    type V = NamedArgModel;

    open spec fn view(&self) -> NamedArgModel {
        NamedArgModel { name: self.name@, arg: self.arg@ }
    }
}

impl NamedArg {
    pub fn new(name: String, arg: Arg) -> (r: Self)
        ensures
            r@.name == name@,
            r@.arg == arg@,
    {
        Self { name, arg }
    }
}

/// A command: its name, its ordered arguments, its behavioral switches, and
/// the presentation strings carried through to help and version text.
#[derive(Debug, Clone)]
pub struct Command {
    pub name: String,
    pub args: Vec<NamedArg>,
    pub ignore_errors: bool,
    pub args_override_self: bool,
    pub dont_delimit_trailing_values: bool,
    pub color: Option<ColorChoice>,
    pub term_width: Option<usize>,
    pub max_term_width: Option<usize>,
    pub disable_version_flag: bool,
    pub disable_help_flag: bool,
    pub arg_required_else_help: bool,
    pub allow_missing_positional: bool,
    pub infer_long_args: bool,
    pub bin_name: Option<String>,
    pub version: Option<String>,
    pub long_version: Option<String>,
    pub author: Option<String>,
    pub about: Option<String>,
    pub long_about: Option<String>,
    pub before_help: Option<String>,
    pub after_help: Option<String>,
    pub before_long_help: Option<String>,
    pub after_long_help: Option<String>,
    pub override_usage: Option<String>,
    pub override_help: Option<String>,
}

/// The mathematical value of a `Command`.
#[verifier::ext_equal]
pub struct CommandModel {
    pub name: Seq<char>,
    pub args: Seq<NamedArgModel>,
    pub ignore_errors: bool,
    pub args_override_self: bool,
    pub dont_delimit_trailing_values: bool,
    pub color: Option<ColorChoice>,
    pub term_width: Option<usize>,
    pub max_term_width: Option<usize>,
    pub disable_version_flag: bool,
    pub disable_help_flag: bool,
    pub arg_required_else_help: bool,
    pub allow_missing_positional: bool,
    pub infer_long_args: bool,
    pub bin_name: Option<Seq<char>>,
    pub version: Option<Seq<char>>,
    pub long_version: Option<Seq<char>>,
    pub author: Option<Seq<char>>,
    pub about: Option<Seq<char>>,
    pub long_about: Option<Seq<char>>,
    pub before_help: Option<Seq<char>>,
    pub after_help: Option<Seq<char>>,
    pub before_long_help: Option<Seq<char>>,
    pub after_long_help: Option<Seq<char>>,
    pub override_usage: Option<Seq<char>>,
    pub override_help: Option<Seq<char>>,
}

impl View for Command {
    type V = CommandModel;

    open spec fn view(&self) -> CommandModel {
        CommandModel {
            name: self.name@,
            args: Seq::new(self.args@.len(), |i: int| self.args@[i]@),
            ignore_errors: self.ignore_errors,
            args_override_self: self.args_override_self,
            dont_delimit_trailing_values: self.dont_delimit_trailing_values,
            color: self.color,
            term_width: self.term_width,
            max_term_width: self.max_term_width,
            disable_version_flag: self.disable_version_flag,
            disable_help_flag: self.disable_help_flag,
            arg_required_else_help: self.arg_required_else_help,
            allow_missing_positional: self.allow_missing_positional,
            infer_long_args: self.infer_long_args,
            bin_name: self.bin_name.deep_view(),
            version: self.version.deep_view(),
            long_version: self.long_version.deep_view(),
            author: self.author.deep_view(),
            about: self.about.deep_view(),
            long_about: self.long_about.deep_view(),
            before_help: self.before_help.deep_view(),
            after_help: self.after_help.deep_view(),
            before_long_help: self.before_long_help.deep_view(),
            after_long_help: self.after_long_help.deep_view(),
            override_usage: self.override_usage.deep_view(),
            override_help: self.override_help.deep_view(),
        }
    }
}

impl Command {
    /// A command with the given name, no arguments, and every switch off.
    pub fn new(name: String) -> (r: Command)
        ensures
            r@.name == name@,
            r@.args.len() == 0,
            !r@.ignore_errors,
            !r@.args_override_self,
            !r@.dont_delimit_trailing_values,
            !r@.disable_version_flag,
            !r@.disable_help_flag,
            !r@.arg_required_else_help,
            !r@.allow_missing_positional,
            !r@.infer_long_args,
            r@.color is None,
            r@.term_width is None,
            r@.max_term_width is None,
            r@.bin_name is None,
            r@.version is None,
            r@.long_version is None,
            r@.author is None,
            r@.about is None,
            r@.long_about is None,
            r@.before_help is None,
            r@.after_help is None,
            r@.before_long_help is None,
            r@.after_long_help is None,
            r@.override_usage is None,
            r@.override_help is None,
    {
        Command {
            name,
            args: Vec::new(),
            ignore_errors: false,
            args_override_self: false,
            dont_delimit_trailing_values: false,
            color: None,
            term_width: None,
            max_term_width: None,
            disable_version_flag: false,
            disable_help_flag: false,
            arg_required_else_help: false,
            allow_missing_positional: false,
            infer_long_args: false,
            bin_name: None,
            version: None,
            long_version: None,
            author: None,
            about: None,
            long_about: None,
            before_help: None,
            after_help: None,
            before_long_help: None,
            after_long_help: None,
            override_usage: None,
            override_help: None,
        }
    }

    /// Appends an argument under the given identifier.
    pub fn arg(&mut self, name: String, arg: Arg)
        ensures
            final(self)@ == (CommandModel {
                args: old(self)@.args.push(NamedArgModel { name: name@, arg: arg@ }),
                ..old(self)@
            }),
    {
        self.args.push(NamedArg { name, arg });
        proof {
            assert(self@.args =~= old(self)@.args.push(
                NamedArgModel { name: name@, arg: arg@ },
            ));
        }
    }
}

impl CommandModel {
    /// How many of the first `i` arguments bind by position.
    pub open spec fn positionals_before(self, i: int) -> nat
        decreases i,
    {
        if i <= 0 {
            0
        } else {
            self.positionals_before(i - 1) + (if 0 <= i - 1 < self.args.len()
                && self.args[i - 1].arg.is_positional() {
                1nat
            } else {
                0nat
            })
        }
    }

    /// Well-formedness of a command description: argument identifiers are
    /// unique; every arity range is satisfiable; an explicit position index
    /// names the argument's own place among the positionals, counted from
    /// one; and only positional arguments carry an index.
    pub open spec fn wf(self) -> bool {
        &&& forall|i: int, j: int|
            0 <= i < j < self.args.len() ==> self.args[i].name != self.args[j].name
        &&& forall|i: int| 0 <= i < self.args.len() ==> (#[trigger] self.args[i]).arg.wf()
        &&& forall|i: int|
            0 <= i < self.args.len() && (#[trigger] self.args[i]).arg.is_positional()
                && self.args[i].arg.index is Some ==> self.args[i].arg.index->0
                == self.positionals_before(i) + 1
        &&& forall|i: int|
            0 <= i < self.args.len() && !(#[trigger] self.args[i]).arg.is_positional()
                ==> self.args[i].arg.index is None
    }
}

impl Command {
    /// Checks the spec-compile-time invariants: unique identifiers,
    /// satisfiable arities (including that only value-taking actions set
    /// an explicit one), and consistent positional indices. A command that
    /// fails this check is a specification defect and is never matched.
    pub fn is_valid(&self) -> (r: bool)
        ensures
            r == self@.wf(),
    {
        let n = self.args.len();
        let mut i: usize = 0;
        while i < n
            invariant
                i <= n,
                n == self.args.len(),
                forall|p: int, q: int| 0 <= p < q < i ==> self@.args[p].name != self@.args[q].name,
            decreases n - i,
        {
            let mut j: usize = 0;
            while j < i
                invariant
                    j <= i,
                    i < n,
                    n == self.args.len(),
                    forall|q: int| 0 <= q < j ==> self@.args[q].name != self@.args[i as int].name,
                decreases i - j,
            {
                if str_eq(self.args[j].name.as_str(), self.args[i].name.as_str()) {
                    proof {
                        assert(self@.args[j as int].name == self@.args[i as int].name);
                        assert(!self@.wf());
                    }
                    return false;
                }
                j = j + 1;
            }
            i = i + 1;
        }
        let mut pos_count: usize = 0;
        let mut k: usize = 0;
        while k < n
            invariant
                k <= n,
                n == self.args.len(),
                pos_count as nat == self@.positionals_before(k as int),
                pos_count <= k,
                forall|p: int|
                    0 <= p < k ==> (#[trigger] self@.args[p]).arg.wf(),
                forall|p: int|
                    0 <= p < k && (#[trigger] self@.args[p]).arg.is_positional()
                        && self@.args[p].arg.index is Some ==> self@.args[p].arg.index->0
                        == self@.positionals_before(p) + 1,
                forall|p: int|
                    0 <= p < k && !(#[trigger] self@.args[p]).arg.is_positional()
                        ==> self@.args[p].arg.index is None,
            decreases n - k,
        {
            let a = &self.args[k].arg;
            proof {
                assert(self@.args[k as int].arg == a@);
            }
            match a.arity {
                Arity::Between(lo, hi) => {
                    if lo > hi {
                        proof {
                            assert(!self@.args[k as int].arg.wf());
                            assert(!self@.wf());
                        }
                        return false;
                    }
                },
                _ => {},
            }
            let takes_values = matches!(a.action, ArgAction::SetValue)
                || matches!(a.action, ArgAction::Append);
            if !takes_values && !matches!(a.arity, Arity::Auto) {
                proof {
                    assert(!self@.args[k as int].arg.wf());
                    assert(!self@.wf());
                }
                return false;
            }
            if a.is_positional() {
                if let Some(ix) = a.index {
                    if ix != pos_count + 1 {
                        proof {
                            assert(!self@.wf());
                        }
                        return false;
                    }
                }
                pos_count = pos_count + 1;
            } else {
                if a.index.is_some() {
                    proof {
                        assert(!self@.wf());
                    }
                    return false;
                }
            }
            k = k + 1;
        }
        true
    }
}

} // verus!
