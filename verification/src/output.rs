//! The result of one parser run and its encoding as shell-safe text.
//!
//! A run either yields `Variables`, one assignment per bound argument, or a
//! `Cat` block: verbatim text (help, version or error output) emitted inside
//! a quoted here-document followed by an explicit `exit` directive, so that
//! the caller's `eval` always sees complete, well-formed shell text.
use vstd::prelude::*;

verus! {

/// Classification of a text-block outcome, mapped to a fixed process exit
/// code: success (also used for help and version displays), a usage or
/// constraint error, missing input with usage display enabled, or an
/// intercepted internal fault.
#[derive(Clone, Copy, Debug, PartialEq, Eq, Structural)]
pub enum ExitCode {
    Success,
    Error,
    Usage,
    Panic,
}

impl ExitCode {
    /// The numeric process exit code of this classification.
    pub open spec fn spec_code(self) -> int {
        match self {
            ExitCode::Success => 0,
            ExitCode::Error => 1,
            ExitCode::Usage => 2,
            ExitCode::Panic => 3,
        }
    }

    /// The decimal text of this classification's exit code.
    pub open spec fn spec_text(self) -> Seq<char> {
        match self {
            ExitCode::Success => "0"@,
            ExitCode::Error => "1"@,
            ExitCode::Usage => "2"@,
            ExitCode::Panic => "3"@,
        }
    }

    pub fn code(&self) -> (c: u8)
        ensures
            c as int == self.spec_code(),
    {
        match self {
            ExitCode::Success => 0,
            ExitCode::Error => 1,
            ExitCode::Usage => 2,
            ExitCode::Panic => 3,
        }
    }

    pub fn text(&self) -> (s: &'static str)
        ensures
            s@ == self.spec_text(),
    {
        match self {
            ExitCode::Success => "0",
            ExitCode::Error => "1",
            ExitCode::Usage => "2",
            ExitCode::Panic => "3",
        }
    }
}

/// One shell variable produced by a run: a name together with a single
/// value or an ordered sequence of values.
#[derive(Debug, PartialEq, Eq)]
pub enum Var {
    Single(String, String),
    Many(String, Vec<String>),
}

/// The mathematical value of a `Var`.
#[verifier::ext_equal]
pub enum VarModel {
    Single(Seq<char>, Seq<char>),
    Many(Seq<char>, Seq<Seq<char>>),
}

impl View for Var {
    type V = VarModel;

    open spec fn view(&self) -> VarModel {
        match self {
            Var::Single(name, value) => VarModel::Single(name@, value@),
            Var::Many(name, values) => VarModel::Many(name@, values.deep_view()),
        }
    }
}

/// A `cat` here-document invocation: verbatim text plus the exit code the
/// surrounding script must finish with.
#[derive(Debug, PartialEq, Eq)]
pub struct CatCmd {
    pub data: String,
    pub exit_code: ExitCode,
}

/// The mathematical value of a `CatCmd`.
#[verifier::ext_equal]
pub struct CatCmdModel {
    pub data: Seq<char>,
    pub exit_code: ExitCode,
}

impl View for CatCmd {
    type V = CatCmdModel;

    open spec fn view(&self) -> CatCmdModel {
        CatCmdModel { data: self.data@, exit_code: self.exit_code }
    }
}

impl CatCmd {
    pub fn new(cmd: String, exit_code: ExitCode) -> (r: CatCmd)
        ensures
            r@.data == cmd@,
            r@.exit_code == exit_code,
    {
        CatCmd { data: cmd, exit_code }
    }
}

/// The output of one parser run.
#[derive(Debug, PartialEq, Eq)]
pub enum Output {
    Cat(CatCmd),
    Variables(Vec<Var>),
}

/// The mathematical value of an `Output`.
#[verifier::ext_equal]
pub enum OutputModel {
    Cat(CatCmdModel),
    Variables(Seq<VarModel>),
}

impl View for Output {
    type V = OutputModel;

    open spec fn view(&self) -> OutputModel {
        match self {
            Output::Cat(cmd) => OutputModel::Cat(cmd@),
            Output::Variables(vars) => OutputModel::Variables(
                Seq::new(vars@.len(), |i: int| vars@[i]@),
            ),
        }
    }
}

/// `parts` joined with `sep` between consecutive elements.
pub open spec fn spec_join(parts: Seq<Seq<char>>, sep: Seq<char>) -> Seq<char>
    decreases parts.len(),
{
    if parts.len() == 0 {
        Seq::empty()
    } else if parts.len() == 1 {
        parts[0]
    } else {
        spec_join(parts.drop_last(), sep) + sep + parts.last()
    }
}

/// Appends `parts` joined with `sep` to `out`.
pub fn append_join(out: &mut String, parts: &Vec<String>, sep: &str)
    ensures
        final(out)@ == old(out)@ + spec_join(parts.deep_view(), sep@),
{
    let ghost orig: Seq<char> = out@;
    let mut i: usize = 0;
    while i < parts.len()
        invariant
            i <= parts.len(),
            out@ == orig + spec_join(parts.deep_view().take(i as int), sep@),
        decreases parts.len() - i,
    {
        let ghost before: Seq<Seq<char>> = parts.deep_view().take(i as int);
        let ghost after: Seq<Seq<char>> = parts.deep_view().take(i + 1 as int);
        if i > 0 {
            out.append(sep);
        }
        out.append(parts[i].as_str());
        proof {
            assert(after.drop_last() =~= before);
            assert(after.last() == parts.deep_view()[i as int]);
            if i == 0 {
                assert(spec_join(after, sep@) == parts.deep_view()[0]);
            }
            assert(out@ =~= orig + spec_join(after, sep@));
        }
        i = i + 1;
    }
    proof {
        assert(parts.deep_view().take(parts.len() as int) =~= parts.deep_view());
    }
}

/// The fixed prefix of every emitted variable name.
pub open spec fn spec_var_prefix() -> Seq<char> {
    "claptrap_"@
}

/// The assignment line for one variable: `claptrap_<name>=<value>` for a
/// single value, `claptrap_<name>=(<v1> <v2> ...)` for a sequence.
pub open spec fn spec_render_var(v: VarModel) -> Seq<char> {
    match v {
        VarModel::Single(name, value) => spec_var_prefix() + name + "="@ + value,
        VarModel::Many(name, values) => spec_var_prefix() + name + "=("@ + spec_join(
            values,
            " "@,
        ) + ")"@,
    }
}

/// All assignment lines, joined by newlines, in the given order.
pub open spec fn spec_render_vars(vars: Seq<VarModel>) -> Seq<char>
    decreases vars.len(),
{
    if vars.len() == 0 {
        Seq::empty()
    } else if vars.len() == 1 {
        spec_render_var(vars[0])
    } else {
        spec_render_vars(vars.drop_last()) + "\n"@ + spec_render_var(vars.last())
    }
}

/// The fenced block for a text outcome: the text is emitted verbatim inside
/// a quoted here-document, followed by an explicit exit directive.
pub open spec fn spec_render_cat(c: CatCmdModel) -> Seq<char> {
    "command cat <<'EOF'\n"@ + c.data + "EOF\nexit "@ + c.exit_code.spec_text()
}

/// The full shell text of an output.
pub open spec fn spec_render_output(o: OutputModel) -> Seq<char> {
    match o {
        OutputModel::Cat(c) => spec_render_cat(c),
        OutputModel::Variables(vars) => spec_render_vars(vars),
    }
}

/// A line of `text` starting at `i` that consists solely of the fence
/// token: the position stands at the start of the text or right after a
/// newline, holds the fence characters, and is followed by a newline or
/// the end of the text. The shell ends the here-document at the first
/// such line.
pub open spec fn spec_fence_line_at(text: Seq<char>, i: int) -> bool {
    &&& 0 <= i
    &&& i + 3 <= text.len()
    &&& (i == 0 || text[i - 1] == '\n')
    &&& text.subrange(i, i + 3) == "EOF"@
    &&& (i + 3 == text.len() || text[i + 3] == '\n')
}

/// The payload contains no line consisting solely of the fence token.
/// This is the assumption the fixed-fence here-document scheme rests on:
/// every diagnostic the library itself composes satisfies it unless
/// user-supplied presentation text carries such a line.
pub open spec fn spec_fence_free(data: Seq<char>) -> bool {
    forall|i: int| !spec_fence_line_at(data, i)
}

/// Under the fence-freedom assumption, the here-document is read back
/// exactly as written: for a fence-free payload ending in a newline (or
/// empty), no fence line occurs anywhere in the payload region of the
/// rendered block, and the terminator the encoder wrote — standing right
/// after the payload — is a fence line. The shell therefore takes the
/// whole payload, verbatim, as the literal text of the block.
pub proof fn lemma_fence_terminates_payload(c: CatCmdModel)
    requires
        spec_fence_free(c.data),
        c.data.len() == 0 || c.data.last() == '\n',
    ensures
        spec_fence_line_at(
            spec_render_cat(c),
            "command cat <<'EOF'\n"@.len() + c.data.len() as int,
        ),
        forall|i: int|
            "command cat <<'EOF'\n"@.len() <= i < "command cat <<'EOF'\n"@.len()
                + c.data.len() ==> !#[trigger] spec_fence_line_at(spec_render_cat(c), i),
{
    let header = "command cat <<'EOF'\n"@;
    let footer = "EOF\nexit "@;
    let data = c.data;
    let r = spec_render_cat(c);
    let n = data.len() as int;
    let h = header.len() as int;
    reveal_strlit("command cat <<'EOF'\n");
    reveal_strlit("EOF\nexit ");
    reveal_strlit("EOF");
    assert(h == 20);
    assert(footer.len() == 9);
    assert(r == header + data + footer + c.exit_code.spec_text());
    assert(r.len() == 20 + n + 9 + c.exit_code.spec_text().len());
    let p = h + n;
    assert(spec_fence_line_at(r, p)) by {
        if n == 0 {
            assert(r[p - 1] == header[19]);
        } else {
            assert(r[p - 1] == data[n - 1]);
        }
        assert(r[p] == footer[0]);
        assert(r[p + 1] == footer[1]);
        assert(r[p + 2] == footer[2]);
        assert(r.subrange(p, p + 3) =~= "EOF"@);
        assert(r[p + 3] == footer[3]);
    }
    assert forall|i: int| h <= i < h + n implies !#[trigger] spec_fence_line_at(r, i) by {
        if spec_fence_line_at(r, i) {
            let q = i - h;
            assert(r.subrange(i, i + 3)[0] == r[i]);
            assert(r.subrange(i, i + 3)[1] == r[i + 1]);
            assert(r.subrange(i, i + 3)[2] == r[i + 2]);
            assert(r[i] == 'E' && r[i + 1] == 'O' && r[i + 2] == 'F');
            if q + 3 <= n {
                if q + 3 == n {
                    assert(i + 3 < r.len());
                    assert(r[i + 3] == footer[0]);
                    assert(footer[0] == 'E');
                    assert(false);
                } else {
                    assert(spec_fence_line_at(data, q)) by {
                        if q > 0 {
                            assert(data[q - 1] == r[i - 1]);
                        }
                        assert(data[q] == r[i] && data[q + 1] == r[i + 1] && data[q + 2] == r[i
                            + 2]);
                        assert(data.subrange(q, q + 3) =~= "EOF"@);
                        assert(data[q + 3] == r[i + 3]);
                    }
                    assert(false);
                }
            } else if q == n - 1 {
                assert(r[i] == data[n - 1]);
                assert(data[n - 1] == '\n');
                assert(false);
            } else {
                assert(q == n - 2);
                assert(r[i + 2] == footer[0]);
                assert(footer[0] == 'E');
                assert(false);
            }
        }
    }
}

impl Var {
    /// Renders this variable as one shell assignment line.
    pub fn render(&self) -> (s: String)
        ensures
            s@ == spec_render_var(self@),
    {
        let mut s = String::new();
        s.append("claptrap_");
        match self {
            Var::Single(name, value) => {
                s.append(name.as_str());
                s.append("=");
                s.append(value.as_str());
            },
            Var::Many(name, values) => {
                s.append(name.as_str());
                s.append("=(");
                append_join(&mut s, values, " ");
                s.append(")");
            },
        }
        proof {
            assert(s@ =~= spec_render_var(self@));
        }
        s
    }
}

impl Output {
    /// Renders this output as the final shell text handed to `eval`. The
    /// here-document scheme assumes a fence-free payload (see
    /// `spec_fence_free`); under that assumption the contract states that
    /// the fence line ending the block is the one this encoder wrote, so
    /// the shell reads the payload back verbatim.
    pub fn render(&self) -> (s: String)
        ensures
            s@ == spec_render_output(self@),
            match self@ {
                OutputModel::Cat(c) => (spec_fence_free(c.data) && (c.data.len() == 0
                    || c.data.last() == '\n')) ==> (spec_fence_line_at(
                    s@,
                    "command cat <<'EOF'\n"@.len() + c.data.len() as int,
                ) && forall|i: int|
                    "command cat <<'EOF'\n"@.len() <= i < "command cat <<'EOF'\n"@.len()
                        + c.data.len() ==> !#[trigger] spec_fence_line_at(s@, i)),
                OutputModel::Variables(_) => true,
            },
    {
        match self {
            Output::Cat(cmd) => {
                let mut s = String::new();
                s.append("command cat <<'EOF'\n");
                s.append(cmd.data.as_str());
                s.append("EOF\nexit ");
                s.append(cmd.exit_code.text());
                proof {
                    assert(s@ =~= spec_render_cat(cmd@));
                    if spec_fence_free(cmd@.data) && (cmd@.data.len() == 0 || cmd@.data.last()
                        == '\n') {
                        lemma_fence_terminates_payload(cmd@);
                    }
                }
                s
            },
            Output::Variables(vars) => {
                let mut s = String::new();
                let ghost model: Seq<VarModel> = Seq::new(vars@.len(), |i: int| vars@[i]@);
                let mut i: usize = 0;
                while i < vars.len()
                    invariant
                        i <= vars.len(),
                        model == Seq::new(vars@.len(), |j: int| vars@[j]@),
                        s@ == spec_render_vars(model.take(i as int)),
                    decreases vars.len() - i,
                {
                    let ghost before: Seq<VarModel> = model.take(i as int);
                    let ghost after: Seq<VarModel> = model.take(i + 1 as int);
                    if i > 0 {
                        s.append("\n");
                    }
                    let line = vars[i].render();
                    s.append(line.as_str());
                    proof {
                        assert(after.drop_last() =~= before);
                        assert(after.last() == model[i as int]);
                        if i == 0 {
                            assert(spec_render_vars(after) == spec_render_var(model[0]));
                        }
                        assert(s@ =~= spec_render_vars(after));
                    }
                    i = i + 1;
                }
                proof {
                    assert(model.take(vars.len() as int) =~= model);
                }
                s
            },
        }
    }
}

} // verus!
