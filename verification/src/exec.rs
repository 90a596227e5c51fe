//! Running the programs and scripts of a profile: which program to start
//! with which arguments, and whether a path counts as executable.

use vstd::prelude::*;
use vstd::string::*;
use crate::parser::{Exec, ExecView, Script, ScriptView};
use crate::text::{concat3, is_err_with};

verus! {

/// Something a profile can run.
#[derive(Debug)]
pub enum Executable {
    Script(Script),
    Shell(Exec),
    Command(String),
    Exec(Exec),
    /// Nothing to run.
    Nothing,
}

/// A program to start: its path or name, its arguments, and whether it must
/// be checked to be executable first.
#[derive(Debug)]
pub struct Launch {
    pub program: String,
    pub args: Vec<String>,
    pub check_executable: bool,
}

/// The model of a launch.
pub struct LaunchView {
    pub program: Seq<char>,
    pub args: Seq<Seq<char>>,
    pub check_executable: bool,
}

impl View for Launch {
    type V = LaunchView;

    open spec fn view(&self) -> LaunchView {
        LaunchView { program: self.program@, args: self.args.deep_view(), check_executable: self.check_executable }
    }
}

/// The arguments of an optional list (none when there is no list).
pub open spec fn args_or_none(a: Option<Seq<Seq<char>>>) -> Seq<Seq<char>> {
    match a {
        Some(s) => s,
        None => Seq::empty(),
    }
}

/// What running a script gives: its path, checked, when it has one.
pub open spec fn script_launch(s: ScriptView) -> Option<LaunchView> {
    match s.path {
        Some(p) => Some(LaunchView { program: p, args: args_or_none(s.arg), check_executable: true }),
        None => None,
    }
}

/// What running a program gives: its path, checked, when it has one; else
/// its command, unchecked, when it has one.
pub open spec fn exec_launch(e: ExecView) -> Option<LaunchView> {
    match e.path {
        Some(p) => Some(LaunchView { program: p, args: args_or_none(e.arg), check_executable: true }),
        None => match e.cmd {
            Some(c) => Some(LaunchView { program: c, args: args_or_none(e.arg), check_executable: false }),
            None => None,
        },
    }
}

/// A copy of an optional argument list, empty when there is none.
fn copy_args(a: &Option<Vec<String>>) -> (r: Vec<String>)
    ensures
        r.deep_view() == args_or_none(a.deep_view()),
{
    let mut r: Vec<String> = Vec::new();
    match a {
        Some(v) => {
            let mut i: usize = 0;
            while i < v.len()
                invariant
                    i <= v@.len(),
                    r@.len() == i,
                    forall|j: int| 0 <= j < i ==> r@[j]@ == v@[j]@,
                decreases v@.len() - i,
            {
                r.push(v[i].clone());
                i = i + 1;
            }
            assert(r.deep_view() =~= v.deep_view());
        },
        None => {
            assert(r.deep_view() =~= Seq::<Seq<char>>::empty());
        },
    }
    r
}

/// The program that running `exec` starts, if any: scripts and programs by
/// path (to be checked as executable first), programs without path by
/// command name; shells, commands and nothing start nothing.
pub fn exec_target(exec: &Executable) -> (r: Option<Launch>)
    ensures
        match exec {
            Executable::Script(s) => match r {
                Some(l) => script_launch(s@) == Some(l@),
                None => script_launch(s@) is None,
            },
            Executable::Exec(e) => match r {
                Some(l) => exec_launch(e@) == Some(l@),
                None => exec_launch(e@) is None,
            },
            _ => r is None,
        },
        r matches Some(l) ==> match exec {
            Executable::Script(sc) => l@.program == sc@.path.unwrap() && l.check_executable && (
            sc@.arg matches Some(a) ==> l@.args == a) && (sc@.arg is None ==> l@.args.len() == 0),
            Executable::Exec(e) => (e@.path matches Some(p) ==> l@.program == p && l.check_executable) && (
            e@.path is None ==> l@.program == e@.cmd.unwrap() && !l.check_executable) && (e@.arg matches Some(
                a,
            ) ==> l@.args == a) && (e@.arg is None ==> l@.args.len() == 0),
            _ => false,
        },
{
    proof {
        match exec {
            Executable::Script(sc) => law_script_launch(sc@),
            Executable::Exec(e) => law_exec_launch(e@),
            _ => {},
        }
    }
    match exec {
        Executable::Script(script) => match &script.path {
            Some(p) => Some(Launch { program: p.clone(), args: copy_args(&script.arg), check_executable: true }),
            None => None,
        },
        Executable::Exec(e) => match &e.path {
            Some(p) => Some(Launch { program: p.clone(), args: copy_args(&e.arg), check_executable: true }),
            None => match &e.cmd {
                Some(c) => Some(Launch { program: c.clone(), args: copy_args(&e.arg), check_executable: false }),
                None => None,
            },
        },
        _ => None,
    }
}

/// The message of a path that is not executable.
pub open spec fn not_executable_message(path: Seq<char>) -> Seq<char> {
    "Could not execute command: "@ + path + " , path is not a executable"@
}

/// Whether a launch may go on, given whether its program was found
/// executable: a launch to be checked needs an executable program.
pub fn require_executable(launch: &Launch, executable: bool) -> (r: Result<(), String>)
    ensures
        launch.check_executable && !executable ==> is_err_with(r, not_executable_message(launch.program@)),
        !(launch.check_executable && !executable) ==> r is Ok,
{
    if launch.check_executable && !executable {
        Err(concat3("Could not execute command: ", launch.program.as_str(), " , path is not a executable"))
    } else {
        Ok(())
    }
}

/// The decimal digits of `n`, most significant first.
pub open spec fn decimal_digits(n: nat) -> Seq<nat>
    decreases n,
{
    if n < 10 {
        seq![n]
    } else {
        decimal_digits(n / 10).push(n % 10)
    }
}

/// The `i`-th decimal digit of `n` from the left, or 0 past the last one.
pub open spec fn digit_at(n: nat, i: int) -> nat {
    if 0 <= i < decimal_digits(n).len() {
        decimal_digits(n)[i]
    } else {
        0
    }
}

/// A digit that grants execution: 1, 5 or 7.
pub open spec fn grants_exec(d: nat) -> bool {
    d == 1 || d == 5 || d == 7
}

/// A permission mode counts as executable when one of the first three
/// digits of its decimal form is 1, 5 or 7.
pub open spec fn mode_executable(mode: nat) -> bool {
    grants_exec(digit_at(mode, 0)) || grants_exec(digit_at(mode, 1)) || grants_exec(digit_at(mode, 2))
}

/// The decimal digits of `mode`, most significant first.
fn digits_of(mode: u32) -> (r: Vec<u32>)
    ensures
        r@.len() == decimal_digits(mode as nat).len(),
        forall|i: int| 0 <= i < r@.len() ==> r@[i] as nat == decimal_digits(mode as nat)[i],
{
    let mut q: u32 = mode;
    let mut r: Vec<u32> = Vec::new();
    while q >= 10
        invariant
            decimal_digits(mode as nat) =~= decimal_digits(q as nat) + r@.map_values(|d: u32| d as nat),
        decreases q,
    {
        let ghost before = r@.map_values(|d: u32| d as nat);
        let d = q % 10;
        r.insert(0, d);
        assert(r@.map_values(|d: u32| d as nat) =~= seq![d as nat] + before);
        assert(decimal_digits(q as nat) == decimal_digits((q / 10) as nat).push((q % 10) as nat));
        q = q / 10;
        assert(decimal_digits(mode as nat) =~= decimal_digits(q as nat) + r@.map_values(|d: u32| d as nat));
    }
    let ghost tail = r@.map_values(|d: u32| d as nat);
    r.insert(0, q);
    assert(r@.map_values(|d: u32| d as nat) =~= seq![q as nat] + tail);
    assert(decimal_digits(mode as nat) =~= r@.map_values(|d: u32| d as nat));
    assert forall|i: int| 0 <= i < r@.len() implies r@[i] as nat == decimal_digits(mode as nat)[i] by {
        assert(r@.map_values(|d: u32| d as nat)[i] == r@[i] as nat);
    }
    r
}

/// Whether a file with permission `mode` counts as executable: whether one
/// of the first three digits of the decimal form of the mode is 1, 5 or 7.
pub fn mode_is_executable(mode: u32) -> (b: bool)
    ensures
        b == mode_executable(mode as nat),
{
    let digits = digits_of(mode);
    let mut found = false;
    let mut i: usize = 0;
    while i < 3
        invariant
            i <= 3,
            digits@.len() == decimal_digits(mode as nat).len(),
            forall|k: int| 0 <= k < digits@.len() ==> digits@[k] as nat == decimal_digits(mode as nat)[k],
            found == exists|k: int| 0 <= k < i && grants_exec(#[trigger] digit_at(mode as nat, k)),
        decreases 3 - i,
    {
        let d: u32 = if i < digits.len() {
            digits[i]
        } else {
            0
        };
        assert(d as nat == digit_at(mode as nat, i as int));
        if d == 1 || d == 5 || d == 7 {
            found = true;
        }
        i = i + 1;
    }
    assert(found == (grants_exec(digit_at(mode as nat, 0)) || grants_exec(digit_at(mode as nat, 1))
        || grants_exec(digit_at(mode as nat, 2))));
    found
}

/// A script is started by its path, checked as executable, with its own
/// argument list (none when it has no list); without a path nothing starts.
pub proof fn law_script_launch(s: ScriptView)
    ensures
        s.path is None <==> script_launch(s) is None,
        script_launch(s) matches Some(l) ==> l.program == s.path.unwrap() && l.check_executable,
        script_launch(s) matches Some(l) ==> (s.arg matches Some(a) ==> l.args == a),
        script_launch(s) matches Some(l) ==> (s.arg is None ==> l.args.len() == 0),
{
}

/// A program is started by its path, checked as executable, or else by its
/// command name, unchecked; either way with its own argument list (none
/// when it has no list). With neither path nor command nothing starts.
pub proof fn law_exec_launch(e: ExecView)
    ensures
        (e.path is None && e.cmd is None) <==> exec_launch(e) is None,
        exec_launch(e) matches Some(l) ==> (e.path matches Some(p) ==> l.program == p && l.check_executable),
        exec_launch(e) matches Some(l) ==> (e.path is None ==> l.program == e.cmd.unwrap() && !l.check_executable),
        exec_launch(e) matches Some(l) ==> (e.arg matches Some(a) ==> l.args == a),
        exec_launch(e) matches Some(l) ==> (e.arg is None ==> l.args.len() == 0),
{
}

} // verus!
