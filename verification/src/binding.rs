//! Bound values: what the engine records for one argument, with its
//! provenance, and the environment snapshot handed to one run.
use vstd::prelude::*;

verus! {

/// Where a bound value came from: a command-line occurrence, the
/// environment snapshot, or a configured default.
#[derive(Clone, Copy, Debug, PartialEq, Eq, Structural)]
pub enum ValueSource {
    CommandLine,
    EnvVariable,
    DefaultValue,
}

/// The record bound to one argument: its values in order, how often it
/// occurred, and its provenance.
#[derive(Debug, Clone)]
pub struct Binding {
    pub values: Vec<String>,
    pub count: u64,
    pub source: ValueSource,
}

/// The mathematical value of a `Binding`.
#[verifier::ext_equal]
pub struct BindingModel {
    pub values: Seq<Seq<char>>,
    pub count: u64,
    pub source: ValueSource,
}

impl View for Binding {
    type V = BindingModel;

    open spec fn view(&self) -> BindingModel {
        BindingModel { values: self.values.deep_view(), count: self.count, source: self.source }
    }
}

/// The models of a whole slot vector, one entry per argument of the
/// command, in declaration order.
pub open spec fn slots_view(v: Vec<Option<Binding>>) -> Seq<Option<BindingModel>> {
    Seq::new(v@.len(), |i: int| match v@[i] {
        Some(b) => Some(b@),
        None => None,
    })
}

/// A slot vector with one empty slot per argument.
pub fn new_slots(n: usize) -> (r: Vec<Option<Binding>>)
    ensures
        slots_view(r) =~= Seq::new(n as nat, |i: int| None::<BindingModel>),
{
    let mut v: Vec<Option<Binding>> = Vec::new();
    let mut i: usize = 0;
    while i < n
        invariant
            i <= n,
            v@.len() == i,
            forall|j: int| 0 <= j < i ==> v@[j] is None,
        decreases n - i,
    {
        v.push(None);
        i = i + 1;
    }
    v
}

/// One variable of the environment snapshot.
#[derive(Debug, Clone)]
pub struct EnvVar {
    pub name: String,
    pub value: String,
}

/// The mathematical value of an `EnvVar`.
#[verifier::ext_equal]
pub struct EnvVarModel {
    pub name: Seq<char>,
    pub value: Seq<char>,
}

impl View for EnvVar {
    type V = EnvVarModel;

    open spec fn view(&self) -> EnvVarModel {
        EnvVarModel { name: self.name@, value: self.value@ }
    }
}

/// The models of an environment snapshot.
pub open spec fn env_view(v: Vec<EnvVar>) -> Seq<EnvVarModel> {
    Seq::new(v@.len(), |i: int| v@[i]@)
}

/// The value of the first snapshot entry with the given name, if any,
/// looking from position `i` on.
pub open spec fn spec_env_lookup_from(env: Seq<EnvVarModel>, name: Seq<char>, i: int) -> Option<
    Seq<char>,
>
    decreases env.len() - i,
{
    if !(0 <= i < env.len()) {
        None
    } else if env[i].name == name {
        Some(env[i].value)
    } else {
        spec_env_lookup_from(env, name, i + 1)
    }
}

/// The value of the first snapshot entry with the given name, if any.
pub open spec fn spec_env_lookup(env: Seq<EnvVarModel>, name: Seq<char>) -> Option<Seq<char>> {
    spec_env_lookup_from(env, name, 0)
}

/// Looks a name up in the environment snapshot.
pub fn env_lookup<'a>(env: &'a Vec<EnvVar>, name: &str) -> (r: Option<&'a String>)
    ensures
        match r {
            Some(v) => spec_env_lookup(env_view(*env), name@) == Some(v@),
            None => spec_env_lookup(env_view(*env), name@) is None,
        },
{
    let mut i: usize = 0;
    while i < env.len()
        invariant
            i <= env.len(),
            spec_env_lookup(env_view(*env), name@) == spec_env_lookup_from(
                env_view(*env),
                name@,
                i as int,
            ),
        decreases env.len() - i,
    {
        if crate::strutil::str_eq(env[i].name.as_str(), name) {
            return Some(&env[i].value);
        }
        i = i + 1;
    }
    None
}

/// An occurrence count bumped by one, saturating instead of wrapping.
pub open spec fn spec_sat_inc(c: u64) -> u64 {
    if c < u64::MAX {
        (c + 1) as u64
    } else {
        c
    }
}

/// Bumps an occurrence count, saturating at the largest representable
/// count.
pub fn sat_inc(c: u64) -> (r: u64)
    ensures
        r == spec_sat_inc(c),
{
    if c < u64::MAX {
        c + 1
    } else {
        c
    }
}

/// `a + b`, saturating at the largest `usize`.
pub open spec fn spec_sat_add(a: nat, b: nat) -> nat {
    if a + b > usize::MAX {
        usize::MAX as nat
    } else {
        a + b
    }
}

/// Adds two counts, saturating at the largest `usize`.
pub fn sat_add(a: usize, b: usize) -> (r: usize)
    ensures
        r as nat == spec_sat_add(a as nat, b as nat),
{
    if b > usize::MAX - a {
        usize::MAX
    } else {
        a + b
    }
}

} // verus!
