//! Reading a configuration file from its parse tree.
//!
//! A file holds profiles, imports and global variables. A profile holds its
//! name, variables, scripts, programs, templates, colours and a wallpaper.
//! Some of what the file says needs the outside world: paths to expand,
//! parameter and colour files to load, wallpaper paths to look at. Those
//! results come in as `Answers`; where one is still missing, reading stops
//! and names it, so that the caller can supply it and read again. Where the
//! configuration cannot be read at all, reading stops with a message.

use vstd::prelude::*;
use vstd::string::*;
use crate::keyed::KeyedMap;
use crate::parser::{
    Color, Exec, ExecView, File, FileView, Import, Profile, ProfileView, Script, ScriptView,
    StringMap, Template, TemplateView, Variable, VariableView, Wpaper,
};
use crate::text::{
    contains_char, has_char, lemma_has_char_find, second_field, second_field_of,
    trim_char, trim_char_of,
};
use crate::wpaper::{
    PaperProbe, PaperView, WpaperView, check_wpaper, outcome_view, check_description, law_checked_engine, paper_config,
};

verus! {

/// The grammar rule that a node of the parse tree matched.
#[derive(Debug, Clone, Copy, PartialEq, Eq, Structural)]
pub enum ConfRule {
    File,
    Profile,
    Name,
    Variable,
    Script,
    Arg,
    Path,
    Param,
    Exec,
    Cmd,
    Wallpaper,
    Template,
    Color,
    Import,
    Key,
    Str,
    Array,
    Object,
    OPair,
    Engine,
    Config,
    Var,
    Eoi,
    Other,
}

/// A node of the parse tree: its rule, the text it matched, the text its
/// children matched together (from the start of the first to the end of the
/// last; empty without children) and its children.
#[derive(Debug)]
pub struct ParseNode {
    pub rule: ConfRule,
    pub text: String,
    pub inner_text: String,
    pub children: Vec<ParseNode>,
}

/// What reading still needs from the outside world.
#[derive(Debug, Clone)]
pub enum Need {
    /// The expansion of a path.
    Expand(String),
    /// The map in a file whose format its extension gives.
    FileMap(String),
    /// The map in a JSON file.
    JsonMap(String),
    /// What the file system tells of a wallpaper path.
    Probe(String),
}

/// Why reading stopped.
#[derive(Debug, Clone)]
pub enum Stop {
    Need(Need),
    /// Reading cannot go on; the message says why.
    Fatal(String),
}

/// The model of a need.
pub enum NeedView {
    Expand(Seq<char>),
    FileMap(Seq<char>),
    JsonMap(Seq<char>),
    Probe(Seq<char>),
}

/// The model of a stop.
pub enum StopView {
    Need(NeedView),
    Fatal(Seq<char>),
}

impl View for Stop {
    type V = StopView;

    open spec fn view(&self) -> StopView {
        match self {
            Stop::Need(Need::Expand(s)) => StopView::Need(NeedView::Expand(s@)),
            Stop::Need(Need::FileMap(s)) => StopView::Need(NeedView::FileMap(s@)),
            Stop::Need(Need::JsonMap(s)) => StopView::Need(NeedView::JsonMap(s@)),
            Stop::Need(Need::Probe(s)) => StopView::Need(NeedView::Probe(s@)),
            Stop::Fatal(s) => StopView::Fatal(s@),
        }
    }
}

/// What the outside world has answered so far: expanded paths by path,
/// maps loaded from files by path, maps loaded from JSON files by path and
/// file-system probes by wallpaper path.
#[derive(Debug)]
pub struct Answers {
    pub expanded: KeyedMap<String>,
    pub file_maps: KeyedMap<StringMap>,
    pub json_maps: KeyedMap<StringMap>,
    pub probes: KeyedMap<PaperProbe>,
}

impl Answers {
    /// No answer yet.
    pub fn new() -> (a: Answers)
        ensures
            a.expanded@ == Map::<Seq<char>, Seq<char>>::empty(),
            a.file_maps@ == Map::<Seq<char>, Map<Seq<char>, Seq<char>>>::empty(),
            a.json_maps@ == Map::<Seq<char>, Map<Seq<char>, Seq<char>>>::empty(),
            a.probes@ == Map::<Seq<char>, PaperProbe>::empty(),
    {
        Answers {
            expanded: KeyedMap::new(),
            file_maps: KeyedMap::new(),
            json_maps: KeyedMap::new(),
            probes: KeyedMap::new(),
        }
    }
}

/// The message of a split field that is not there.
pub open spec fn index_message() -> Seq<char> {
    "index out of bounds: the len is 1 but the index is 1"@
}

/// The message of a node at the top of a file that is no profile, import,
/// variable or end of input.
pub open spec fn unreachable_message() -> Seq<char> {
    "internal error: entered unreachable code"@
}

/// The message of a wallpaper path that cannot be checked.
pub open spec fn unchecked_message() -> Seq<char> {
    "wallpaper could not be checked"@
}

fn fatal_index() -> (s: Stop)
    ensures
        s@ == StopView::Fatal(index_message()),
{
    Stop::Fatal(String::from_str("index out of bounds: the len is 1 but the index is 1"))
}

/// Runs `step` over `ns` in order from `init`, stopping at the first error.
pub open spec fn fold_steps<S, E>(init: S, ns: Seq<ParseNode>, step: spec_fn(S, ParseNode) -> Result<S, E>) -> Result<S, E>
    decreases ns.len(),
{
    if ns.len() == 0 {
        Ok(init)
    } else {
        match fold_steps(init, ns.drop_last(), step) {
            Err(e) => Err(e),
            Ok(s) => step(s, ns.last()),
        }
    }
}

/// One more node.
pub proof fn lemma_fold_next<S, E>(init: S, ns: Seq<ParseNode>, step: spec_fn(S, ParseNode) -> Result<S, E>, i: int)
    requires
        0 <= i < ns.len(),
    ensures
        fold_steps(init, ns.take(i + 1), step) == match fold_steps(init, ns.take(i), step) {
            Err(e) => Err(e),
            Ok(s) => step(s, ns[i]),
        },
{
    assert(ns.take(i + 1).drop_last() =~= ns.take(i));
}

/// Once stopped, a fold stays stopped.
pub proof fn lemma_fold_stopped<S, E>(init: S, ns: Seq<ParseNode>, step: spec_fn(S, ParseNode) -> Result<S, E>, i: int)
    requires
        0 <= i <= ns.len(),
        fold_steps(init, ns.take(i), step) is Err,
    ensures
        fold_steps(init, ns, step) == fold_steps(init, ns.take(i), step),
    decreases ns.len() - i,
{
    if i < ns.len() {
        lemma_fold_next(init, ns, step, i);
        lemma_fold_stopped(init, ns, step, i + 1);
    } else {
        assert(ns.take(i) =~= ns);
    }
}

/// A fold over no node.
pub proof fn lemma_fold_start<S, E>(init: S, ns: Seq<ParseNode>, step: spec_fn(S, ParseNode) -> Result<S, E>)
    ensures
        fold_steps(init, ns.take(0), step) == Ok::<S, E>(init),
{
    assert(ns.take(0) =~= Seq::<ParseNode>::empty());
}

/// A fold over all nodes.
pub proof fn lemma_fold_end<S, E>(init: S, ns: Seq<ParseNode>, step: spec_fn(S, ParseNode) -> Result<S, E>)
    ensures
        fold_steps(init, ns.take(ns.len() as int), step) == fold_steps(init, ns, step),
{
    assert(ns.take(ns.len() as int) =~= ns);
}

/// The texts of the nodes, except those that are exactly `[]`.
pub open spec fn leaf_texts(ns: Seq<ParseNode>) -> Seq<Seq<char>>
    decreases ns.len(),
{
    if ns.len() == 0 {
        Seq::empty()
    } else if ns.last().text@ != "[]"@ {
        leaf_texts(ns.drop_last()).push(ns.last().text@)
    } else {
        leaf_texts(ns.drop_last())
    }
}

/// The texts under the string nodes.
pub open spec fn string_texts(ns: Seq<ParseNode>) -> Seq<Seq<char>>
    decreases ns.len(),
{
    if ns.len() == 0 {
        Seq::empty()
    } else if ns.last().rule == ConfRule::Str {
        string_texts(ns.drop_last()) + leaf_texts(ns.last().children@)
    } else {
        string_texts(ns.drop_last())
    }
}

/// The arguments that an argument node holds: the texts under the strings
/// of its arrays.
pub open spec fn args_of(ns: Seq<ParseNode>) -> Seq<Seq<char>>
    decreases ns.len(),
{
    if ns.len() == 0 {
        Seq::empty()
    } else if ns.last().rule == ConfRule::Array {
        args_of(ns.drop_last()) + string_texts(ns.last().children@)
    } else {
        args_of(ns.drop_last())
    }
}

/// The text of the last node of rule `r`, or nothing.
pub open spec fn last_text(ns: Seq<ParseNode>, r: ConfRule) -> Seq<char>
    decreases ns.len(),
{
    if ns.len() == 0 {
        Seq::empty()
    } else if ns.last().rule == r {
        ns.last().text@
    } else {
        last_text(ns.drop_last(), r)
    }
}

/// The inner text of the last node of rule `r`, or nothing.
pub open spec fn last_inner(ns: Seq<ParseNode>, r: ConfRule) -> Seq<char>
    decreases ns.len(),
{
    if ns.len() == 0 {
        Seq::empty()
    } else if ns.last().rule == r {
        ns.last().inner_text@
    } else {
        last_inner(ns.drop_last(), r)
    }
}

/// The non-empty inner texts of the string nodes.
pub open spec fn array_texts(ns: Seq<ParseNode>) -> Seq<Seq<char>>
    decreases ns.len(),
{
    if ns.len() == 0 {
        Seq::empty()
    } else if ns.last().rule == ConfRule::Str && ns.last().inner_text@.len() > 0 {
        array_texts(ns.drop_last()).push(ns.last().inner_text@)
    } else {
        array_texts(ns.drop_last())
    }
}

/// The path that a `path = ...` text gives: the text after the first `=`
/// (up to a second one), without surrounding `"` when it holds one.
pub open spec fn path_value(s: Seq<char>) -> Seq<char> {
    let p = second_field(s, '=').unwrap();
    if has_char(p, '"') {
        trim_char(p, '"')
    } else {
        p
    }
}

/// The path of a `path = ...` text.
pub fn get_path(path: &str) -> (r: String)
    requires
        has_char(path@, '='),
    ensures
        r@ == path_value(path@),
{
    proof {
        lemma_has_char_find(path@, '=');
    }
    let p = second_field_of(path, '=').unwrap();
    if contains_char(p.as_str(), '"') {
        trim_char_of(p.as_str(), '"')
    } else {
        p
    }
}

/// The command of a `cmd = ...` text: the text after the first `=`.
pub fn get_cmd(cmd: &str) -> (r: String)
    requires
        has_char(cmd@, '='),
    ensures
        r@ == second_field(cmd@, '=').unwrap(),
{
    proof {
        lemma_has_char_find(cmd@, '=');
    }
    second_field_of(cmd, '=').unwrap()
}

fn push_leaf_texts(out: &mut Vec<String>, ns: &Vec<ParseNode>)
    ensures
        final(out).deep_view() == old(out).deep_view() + leaf_texts(ns@),
{
    let ghost start = out.deep_view();
    let mut i: usize = 0;
    assert(ns@.take(0) =~= Seq::<ParseNode>::empty());
    assert(start + leaf_texts(ns@.take(0)) =~= start);
    while i < ns.len()
        invariant
            i <= ns@.len(),
            out.deep_view() == start + leaf_texts(ns@.take(i as int)),
        decreases ns@.len() - i,
    {
        assert(ns@.take(i as int + 1).drop_last() =~= ns@.take(i as int));
        let ghost before = out.deep_view();
        if !crate::text::eq_str(ns[i].text.as_str(), "[]") {
            out.push(ns[i].text.clone());
            assert(out.deep_view() =~= before.push(ns@[i as int].text@));
        }
        assert(out.deep_view() =~= start + leaf_texts(ns@.take(i as int + 1)));
        i = i + 1;
    }
    assert(ns@.take(i as int) =~= ns@);
}

fn push_string_texts(out: &mut Vec<String>, ns: &Vec<ParseNode>)
    ensures
        final(out).deep_view() == old(out).deep_view() + string_texts(ns@),
{
    let ghost start = out.deep_view();
    let mut i: usize = 0;
    assert(ns@.take(0) =~= Seq::<ParseNode>::empty());
    assert(start + string_texts(ns@.take(0)) =~= start);
    while i < ns.len()
        invariant
            i <= ns@.len(),
            out.deep_view() == start + string_texts(ns@.take(i as int)),
        decreases ns@.len() - i,
    {
        assert(ns@.take(i as int + 1).drop_last() =~= ns@.take(i as int));
        match ns[i].rule {
            ConfRule::Str => {
                push_leaf_texts(out, &ns[i].children);
            },
            _ => {},
        }
        assert(out.deep_view() =~= start + string_texts(ns@.take(i as int + 1)));
        i = i + 1;
    }
    assert(ns@.take(i as int) =~= ns@);
}

/// The arguments of an argument node's children: the texts under the
/// strings of its arrays, except `[]`.
pub fn get_args(args: &Vec<ParseNode>) -> (r: Vec<String>)
    ensures
        r.deep_view() == args_of(args@),
{
    let mut out: Vec<String> = Vec::new();
    let mut i: usize = 0;
    assert(args@.take(0) =~= Seq::<ParseNode>::empty());
    assert(out.deep_view() =~= args_of(args@.take(0)));
    while i < args.len()
        invariant
            i <= args@.len(),
            out.deep_view() == args_of(args@.take(i as int)),
        decreases args@.len() - i,
    {
        assert(args@.take(i as int + 1).drop_last() =~= args@.take(i as int));
        match args[i].rule {
            ConfRule::Array => {
                push_string_texts(&mut out, &args[i].children);
            },
            _ => {},
        }
        i = i + 1;
    }
    assert(args@.take(i as int) =~= args@);
    out
}

/// The text of the last node of rule `r`, or nothing.
fn find_last_text(ns: &Vec<ParseNode>, r: ConfRule, inner: bool) -> (t: String)
    ensures
        inner ==> t@ == last_inner(ns@, r),
        !inner ==> t@ == last_text(ns@, r),
{
    let mut t = String::new();
    let mut i: usize = 0;
    assert(ns@.take(0) =~= Seq::<ParseNode>::empty());
    while i < ns.len()
        invariant
            i <= ns@.len(),
            inner ==> t@ == last_inner(ns@.take(i as int), r),
            !inner ==> t@ == last_text(ns@.take(i as int), r),
        decreases ns@.len() - i,
    {
        assert(ns@.take(i as int + 1).drop_last() =~= ns@.take(i as int));
        if ns[i].rule == r {
            if inner {
                t = ns[i].inner_text.clone();
            } else {
                t = ns[i].text.clone();
            }
        }
        i = i + 1;
    }
    assert(ns@.take(i as int) =~= ns@);
    t
}

/// The variable that a variable node's children name; its value is empty.
pub fn get_variable(rules: &Vec<ParseNode>) -> (v: Variable)
    ensures
        v@ == (VariableView { name: last_text(rules@, ConfRule::Var), value: Seq::empty() }),
{
    let name = find_last_text(rules, ConfRule::Var, false);
    Variable { name, value: String::new() }
}

/// The file that an import node's children name.
pub fn get_imports(import: &Vec<ParseNode>) -> (r: String)
    ensures
        r@ == last_text(import@, ConfRule::Key),
{
    find_last_text(import, ConfRule::Key, false)
}

/// The effect of one key-value pair of an object on the map built so far:
/// a present map takes the pair; the first pair starts a map only when both
/// key and value are non-empty.
pub open spec fn pair_step(m: Option<Map<Seq<char>, Seq<char>>>, k: Seq<char>, v: Seq<char>) -> Result<
    Option<Map<Seq<char>, Seq<char>>>,
    Seq<char>,
> {
    match m {
        Some(m) => Ok(Some(m.insert(k, v))),
        None => if k.len() > 0 && v.len() > 0 {
            Ok(Some(Map::empty().insert(k, v)))
        } else if k.len() == 0 {
            Err("Empty key in HashMap"@)
        } else {
            Err("Empty value in HashMap"@)
        },
    }
}

/// The effect of one child of an object.
pub open spec fn object_step(m: Option<Map<Seq<char>, Seq<char>>>, n: ParseNode) -> Result<
    Option<Map<Seq<char>, Seq<char>>>,
    Seq<char>,
> {
    if n.rule == ConfRule::OPair {
        pair_step(m, last_inner(n.children@, ConfRule::Key), last_inner(n.children@, ConfRule::Str))
    } else {
        Ok(m)
    }
}

pub open spec fn object_stepper() -> spec_fn(Option<Map<Seq<char>, Seq<char>>>, ParseNode) -> Result<
    Option<Map<Seq<char>, Seq<char>>>,
    Seq<char>,
> {
    |m: Option<Map<Seq<char>, Seq<char>>>, n: ParseNode| object_step(m, n)
}

/// The outcome of parameters so far: the last path, expanded, and the map.
pub struct ParamsAcc {
    pub path: Option<Seq<char>>,
    pub map: Option<Map<Seq<char>, Seq<char>>>,
}

/// The effect of one child of a parameter node.
pub open spec fn params_step(acc: ParamsAcc, n: ParseNode, ans: Answers) -> Result<ParamsAcc, StopView> {
    if n.rule == ConfRule::Path {
        if !has_char(n.text@, '=') {
            Err(StopView::Fatal(index_message()))
        } else if ans.expanded@.dom().contains(path_value(n.text@)) {
            Ok(ParamsAcc { path: Some(ans.expanded@[path_value(n.text@)]), ..acc })
        } else {
            Err(StopView::Need(NeedView::Expand(path_value(n.text@))))
        }
    } else if n.rule == ConfRule::Object {
        match fold_steps(acc.map, n.children@, object_stepper()) {
            Err(m) => Err(StopView::Fatal(m)),
            Ok(m) => Ok(ParamsAcc { map: m, ..acc }),
        }
    } else {
        Ok(acc)
    }
}

pub open spec fn params_stepper(ans: Answers) -> spec_fn(ParamsAcc, ParseNode) -> Result<ParamsAcc, StopView> {
    |acc: ParamsAcc, n: ParseNode| params_step(acc, n, ans)
}

/// The model of what parameters give: a path or a map.
pub enum ParamsView {
    Path(Seq<char>),
    Params(Map<Seq<char>, Seq<char>>),
}

/// What the children of a parameter node give: the expanded path of the
/// last path among them if there is one, else the map of their objects;
/// neither is a stop.
pub open spec fn params_outcome(ns: Seq<ParseNode>, ans: Answers) -> Result<ParamsView, StopView> {
    match fold_steps(ParamsAcc { path: None, map: None }, ns, params_stepper(ans)) {
        Err(e) => Err(e),
        Ok(acc) => match acc.path {
            Some(p) => Ok(ParamsView::Path(p)),
            None => match acc.map {
                Some(m) => Ok(ParamsView::Params(m)),
                None => Err(StopView::Fatal("Failed to get params"@)),
            },
        },
    }
}

/// What parameters give: the path of a parameter file or a map.
#[derive(Debug)]
pub enum ParamsResult {
    Path(String),
    Params(StringMap),
}

/// The model of an optional map.
pub open spec fn map_opt_view(o: Option<StringMap>) -> Option<Map<Seq<char>, Seq<char>>> {
    match o {
        Some(m) => Some(m@),
        None => None,
    }
}

fn object_into(map: &mut Option<StringMap>, ns: &Vec<ParseNode>) -> (r: Result<(), String>)
    ensures
        match fold_steps(
            map_opt_view(*old(map)),
            ns@,
            object_stepper(),
        ) {
            Ok(m) => r is Ok && m == map_opt_view(*final(map)),
            Err(e) => r matches Err(x) && x@ == e,
        },
{
    let ghost init = map_opt_view(*map);
    let mut i: usize = 0;
    proof {
        lemma_fold_start(init, ns@, object_stepper());
    }
    while i < ns.len()
        invariant
            i <= ns@.len(),
            init == map_opt_view(*old(map)),
            fold_steps(init, ns@.take(i as int), object_stepper()) == Ok::<
                Option<Map<Seq<char>, Seq<char>>>,
                Seq<char>,
            >(map_opt_view(*map)),
        decreases ns@.len() - i,
    {
        proof {
            lemma_fold_next(init, ns@, object_stepper(), i as int);
        }
        let n = &ns[i];
        match n.rule {
            ConfRule::OPair => {
                let key = find_last_text(&n.children, ConfRule::Key, true);
                let value = find_last_text(&n.children, ConfRule::Str, true);
                match map {
                    Some(m) => {
                        m.insert(key, value);
                    },
                    None => {
                        if key.unicode_len() > 0 && value.unicode_len() > 0 {
                            *map = Some(KeyedMap::singleton(key, value));
                        } else if key.unicode_len() == 0 {
                            proof {
                                lemma_fold_stopped(init, ns@, object_stepper(), i as int + 1);
                            }
                            return Err(String::from_str("Empty key in HashMap"));
                        } else {
                            proof {
                                lemma_fold_stopped(init, ns@, object_stepper(), i as int + 1);
                            }
                            return Err(String::from_str("Empty value in HashMap"));
                        }
                    },
                }
            },
            _ => {},
        }
        i = i + 1;
    }
    proof {
        lemma_fold_end(init, ns@, object_stepper());
    }
    Ok(())
}

/// What the children of a parameter node give.
pub fn get_params(params: &Vec<ParseNode>, ans: &Answers) -> (r: Result<ParamsResult, Stop>)
    ensures
        match params_outcome(params@, *ans) {
            Ok(ParamsView::Path(p)) => r matches Ok(ParamsResult::Path(x)) && x@ == p,
            Ok(ParamsView::Params(m)) => r matches Ok(ParamsResult::Params(x)) && x@ == m,
            Err(e) => r matches Err(x) && x@ == e,
        },
{
    let ghost init = ParamsAcc { path: None, map: None };
    let mut path: Option<String> = None;
    let mut map: Option<StringMap> = None;
    let mut i: usize = 0;
    proof {
        lemma_fold_start(init, params@, params_stepper(*ans));
    }
    while i < params.len()
        invariant
            i <= params@.len(),
            init == (ParamsAcc { path: None, map: None }),
            fold_steps(init, params@.take(i as int), params_stepper(*ans)) == Ok::<ParamsAcc, StopView>(
                ParamsAcc {
                    path: path.deep_view(),
                    map: map_opt_view(map),
                },
            ),
        decreases params@.len() - i,
    {
        proof {
            lemma_fold_next(init, params@, params_stepper(*ans), i as int);
        }
        let n = &params[i];
        match n.rule {
            ConfRule::Path => {
                if !contains_char(n.text.as_str(), '=') {
                    proof {
                        lemma_fold_stopped(init, params@, params_stepper(*ans), i as int + 1);
                    }
                    return Err(fatal_index());
                }
                let raw = get_path(n.text.as_str());
                match ans.expanded.get(&raw) {
                    Some(x) => {
                        path = Some(x.clone());
                    },
                    None => {
                        proof {
                            lemma_fold_stopped(init, params@, params_stepper(*ans), i as int + 1);
                        }
                        return Err(Stop::Need(Need::Expand(raw)));
                    },
                }
            },
            ConfRule::Object => {
                match object_into(&mut map, &n.children) {
                    Ok(()) => {},
                    Err(m) => {
                        proof {
                            lemma_fold_stopped(init, params@, params_stepper(*ans), i as int + 1);
                        }
                        return Err(Stop::Fatal(m));
                    },
                }
            },
            _ => {},
        }
        i = i + 1;
    }
    proof {
        lemma_fold_end(init, params@, params_stepper(*ans));
    }
    match path {
        Some(p) => Ok(ParamsResult::Path(p)),
        None => match map {
            Some(m) => Ok(ParamsResult::Params(m)),
            None => Err(Stop::Fatal(String::from_str("Failed to get params"))),
        },
    }
}

/// The list after adding `x`: appended, or started.
pub open spec fn appended_view<T>(o: Option<Seq<T>>, x: T) -> Seq<T> {
    match o {
        Some(s) => s.push(x),
        None => seq![x],
    }
}

/// The parameter maps after adding `m` to an owner whose arguments are
/// `arg`: appended to a present list; with no list, started only while there
/// are no arguments.
pub open spec fn param_added_view(
    params: Option<Seq<Map<Seq<char>, Seq<char>>>>,
    arg: Option<Seq<Seq<char>>>,
    m: Map<Seq<char>, Seq<char>>,
) -> Option<Seq<Map<Seq<char>, Seq<char>>>> {
    match params {
        Some(s) => Some(s.push(m)),
        None => if arg is None {
            Some(seq![m])
        } else {
            None
        },
    }
}

proof fn lemma_param_added(old_p: Option<Vec<StringMap>>, new_p: Option<Vec<StringMap>>, arg: Option<Vec<String>>, m: StringMap)
    requires
        crate::parser::opt_seq(new_p) == crate::parser::param_added(old_p, arg, m),
    ensures
        crate::parser::params_view(new_p) == param_added_view(crate::parser::params_view(old_p), arg.deep_view(), m@),
{
    match old_p {
        Some(v) => {
            let w = new_p->Some_0;
            assert(w@.map_values(|x: StringMap| x@) =~= v@.map_values(|x: StringMap| x@).push(m@));
        },
        None => {
            if arg is None {
                let w = new_p->Some_0;
                assert(w@.map_values(|x: StringMap| x@) =~= seq![m@]);
            }
        },
    }
}

proof fn lemma_appended<T: View>(old_o: Option<Vec<T>>, new_o: Option<Vec<T>>, x: T)
    requires
        new_o matches Some(v) && v@ == crate::parser::appended(old_o, x),
    ensures
        crate::parser::opt_views(new_o) == Some(appended_view(crate::parser::opt_views(old_o), x@)),
{
    let w = new_o->Some_0;
    match old_o {
        Some(v) => {
            assert(w@.map_values(|t: T| t@) =~= v@.map_values(|t: T| t@).push(x@));
        },
        None => {
            assert(w@.map_values(|t: T| t@) =~= seq![x@]);
        },
    }
}

/// An exec step agrees with its model.
pub open spec fn step_agrees<S>(model: Result<S, StopView>, now: S, r: Result<(), Stop>) -> bool {
    match model {
        Ok(v) => r is Ok && now == v,
        Err(e) => r matches Err(x) && x@ == e,
    }
}

/// The map that a colour node's children give: their inline map, or the
/// loaded map of their parameter file.
pub open spec fn color_outcome(ns: Seq<ParseNode>, ans: Answers) -> Result<Map<Seq<char>, Seq<char>>, StopView> {
    match params_outcome(ns, ans) {
        Err(e) => Err(e),
        Ok(ParamsView::Params(m)) => Ok(m),
        Ok(ParamsView::Path(p)) => if ans.file_maps@.dom().contains(p) {
            Ok(ans.file_maps@[p])
        } else {
            Err(StopView::Need(NeedView::FileMap(p)))
        },
    }
}

/// The map of a parameter node whose file is read by its extension.
pub open spec fn file_param_outcome(ns: Seq<ParseNode>, ans: Answers) -> Result<Map<Seq<char>, Seq<char>>, StopView> {
    color_outcome(ns, ans)
}

/// The map of a parameter node whose file is read as JSON.
pub open spec fn json_param_outcome(ns: Seq<ParseNode>, ans: Answers) -> Result<Map<Seq<char>, Seq<char>>, StopView> {
    match params_outcome(ns, ans) {
        Err(e) => Err(e),
        Ok(ParamsView::Params(m)) => Ok(m),
        Ok(ParamsView::Path(p)) => if ans.json_maps@.dom().contains(p) {
            Ok(ans.json_maps@[p])
        } else {
            Err(StopView::Need(NeedView::JsonMap(p)))
        },
    }
}

/// The map that a parameter node gives, its file read by extension or as
/// JSON.
fn param_map(ns: &Vec<ParseNode>, ans: &Answers, json: bool) -> (r: Result<StringMap, Stop>)
    ensures
        match if json {
            json_param_outcome(ns@, *ans)
        } else {
            file_param_outcome(ns@, *ans)
        } {
            Ok(m) => r matches Ok(x) && x@ == m,
            Err(e) => r matches Err(x) && x@ == e,
        },
{
    match get_params(ns, ans) {
        Err(e) => Err(e),
        Ok(ParamsResult::Params(m)) => Ok(m),
        Ok(ParamsResult::Path(p)) => {
            let found = if json {
                ans.json_maps.get(&p)
            } else {
                ans.file_maps.get(&p)
            };
            match found {
                Some(m) => Ok(m.copy()),
                None => if json {
                    Err(Stop::Need(Need::JsonMap(p)))
                } else {
                    Err(Stop::Need(Need::FileMap(p)))
                },
            }
        },
    }
}

/// The expanded form of the path of a `path = ...` text.
pub open spec fn expanded_path_outcome(text: Seq<char>, ans: Answers) -> Result<Seq<char>, StopView> {
    if !has_char(text, '=') {
        Err(StopView::Fatal(index_message()))
    } else if ans.expanded@.dom().contains(path_value(text)) {
        Ok(ans.expanded@[path_value(text)])
    } else {
        Err(StopView::Need(NeedView::Expand(path_value(text))))
    }
}

fn expanded_path(text: &String, ans: &Answers) -> (r: Result<String, Stop>)
    ensures
        match expanded_path_outcome(text@, *ans) {
            Ok(p) => r matches Ok(x) && x@ == p,
            Err(e) => r matches Err(x) && x@ == e,
        },
{
    if !contains_char(text.as_str(), '=') {
        return Err(fatal_index());
    }
    let raw = get_path(text.as_str());
    match ans.expanded.get(&raw) {
        Some(x) => Ok(x.clone()),
        None => Err(Stop::Need(Need::Expand(raw))),
    }
}

/// The path of a `path = ...` text, not expanded.
pub open spec fn plain_path_outcome(text: Seq<char>) -> Result<Seq<char>, StopView> {
    if !has_char(text, '=') {
        Err(StopView::Fatal(index_message()))
    } else {
        Ok(path_value(text))
    }
}

fn plain_path(text: &String) -> (r: Result<String, Stop>)
    ensures
        match plain_path_outcome(text@) {
            Ok(p) => r matches Ok(x) && x@ == p,
            Err(e) => r matches Err(x) && x@ == e,
        },
{
    if !contains_char(text.as_str(), '=') {
        return Err(fatal_index());
    }
    Ok(get_path(text.as_str()))
}

/// The text after the first `=` of a `name = ...` or `cmd = ...` text.
pub open spec fn field_outcome(text: Seq<char>) -> Result<Seq<char>, StopView> {
    match second_field(text, '=') {
        None => Err(StopView::Fatal(index_message())),
        Some(x) => Ok(x),
    }
}

fn field_value(text: &String) -> (r: Result<String, Stop>)
    ensures
        match field_outcome(text@) {
            Ok(p) => r matches Ok(x) && x@ == p,
            Err(e) => r matches Err(x) && x@ == e,
        },
{
    match second_field_of(text.as_str(), '=') {
        Some(x) => Ok(x),
        None => Err(fatal_index()),
    }
}

/// A script with nothing set.
pub open spec fn empty_script() -> ScriptView {
    ScriptView { path: None, arg: None, params: None }
}

/// The effect of one child of a script node.
pub open spec fn script_step(sv: ScriptView, n: ParseNode, ans: Answers) -> Result<ScriptView, StopView> {
    if n.rule == ConfRule::Arg {
        Ok(ScriptView { arg: Some(args_of(n.children@)), ..sv })
    } else if n.rule == ConfRule::Path {
        match expanded_path_outcome(n.text@, ans) {
            Err(e) => Err(e),
            Ok(p) => Ok(ScriptView { path: Some(p), ..sv }),
        }
    } else if n.rule == ConfRule::Param {
        match file_param_outcome(n.children@, ans) {
            Err(e) => Err(e),
            Ok(m) => Ok(ScriptView { params: param_added_view(sv.params, sv.arg, m), ..sv }),
        }
    } else {
        Ok(sv)
    }
}

pub open spec fn script_stepper(ans: Answers) -> spec_fn(ScriptView, ParseNode) -> Result<ScriptView, StopView> {
    |sv: ScriptView, n: ParseNode| script_step(sv, n, ans)
}

fn script_step_exec(s: &mut Script, n: &ParseNode, ans: &Answers) -> (r: Result<(), Stop>)
    ensures
        step_agrees(script_step(old(s)@, *n, *ans), final(s)@, r),
{
    match n.rule {
        ConfRule::Arg => {
            let args = get_args(&n.children);
            s.add_args(args);
            Ok(())
        },
        ConfRule::Path => {
            match expanded_path(&n.text, ans) {
                Ok(p) => {
                    s.set_path(p);
                    Ok(())
                },
                Err(e) => Err(e),
            }
        },
        ConfRule::Param => {
            match param_map(&n.children, ans, false) {
                Ok(m) => {
                    let ghost before = *s;
                    s.add_param(m);
                    proof {
                        lemma_param_added(before.params, s.params, before.arg, m);
                    }
                    Ok(())
                },
                Err(e) => Err(e),
            }
        },
        _ => Ok(()),
    }
}

/// A program with nothing set.
pub open spec fn empty_exec() -> ExecView {
    ExecView { arg: None, path: None, cmd: None, params: None }
}

/// The effect of one child of a program node.
pub open spec fn exec_step(ev: ExecView, n: ParseNode, ans: Answers) -> Result<ExecView, StopView> {
    if n.rule == ConfRule::Cmd {
        match field_outcome(n.text@) {
            Err(e) => Err(e),
            Ok(c) => Ok(ExecView { cmd: Some(c), ..ev }),
        }
    } else if n.rule == ConfRule::Arg {
        Ok(ExecView { arg: Some(args_of(n.children@)), ..ev })
    } else if n.rule == ConfRule::Path {
        match plain_path_outcome(n.text@) {
            Err(e) => Err(e),
            Ok(p) => Ok(ExecView { path: Some(p), ..ev }),
        }
    } else if n.rule == ConfRule::Param {
        match json_param_outcome(n.children@, ans) {
            Err(e) => Err(e),
            Ok(m) => Ok(ExecView { params: param_added_view(ev.params, ev.arg, m), ..ev }),
        }
    } else {
        Ok(ev)
    }
}

pub open spec fn exec_stepper(ans: Answers) -> spec_fn(ExecView, ParseNode) -> Result<ExecView, StopView> {
    |ev: ExecView, n: ParseNode| exec_step(ev, n, ans)
}

fn exec_step_exec(e: &mut Exec, n: &ParseNode, ans: &Answers) -> (r: Result<(), Stop>)
    ensures
        step_agrees(exec_step(old(e)@, *n, *ans), final(e)@, r),
{
    match n.rule {
        ConfRule::Cmd => {
            match field_value(&n.text) {
                Ok(c) => {
                    e.set_cmd(c);
                    Ok(())
                },
                Err(x) => Err(x),
            }
        },
        ConfRule::Arg => {
            let args = get_args(&n.children);
            e.add_args(args);
            Ok(())
        },
        ConfRule::Path => {
            match plain_path(&n.text) {
                Ok(p) => {
                    e.set_path(p);
                    Ok(())
                },
                Err(x) => Err(x),
            }
        },
        ConfRule::Param => {
            match param_map(&n.children, ans, true) {
                Ok(m) => {
                    let ghost before = *e;
                    e.add_param(m);
                    proof {
                        lemma_param_added(before.params, e.params, before.arg, m);
                    }
                    Ok(())
                },
                Err(x) => Err(x),
            }
        },
        _ => Ok(()),
    }
}

/// A template with empty paths and nothing else.
pub open spec fn empty_template() -> TemplateView {
    TemplateView { path: Seq::empty(), out: Seq::empty(), color: None, arg: None, params: None }
}

/// The effect of one child of a template node.
pub open spec fn template_step(tv: TemplateView, n: ParseNode, ans: Answers) -> Result<TemplateView, StopView> {
    if n.rule == ConfRule::Arg {
        Ok(TemplateView { arg: Some(args_of(n.children@)), ..tv })
    } else if n.rule == ConfRule::Path {
        match plain_path_outcome(n.text@) {
            Err(e) => Err(e),
            Ok(p) => Ok(TemplateView { path: p, ..tv }),
        }
    } else if n.rule == ConfRule::Param {
        match file_param_outcome(n.children@, ans) {
            Err(e) => Err(e),
            Ok(m) => Ok(TemplateView { params: param_added_view(tv.params, tv.arg, m), ..tv }),
        }
    } else if n.rule == ConfRule::Color {
        match color_outcome(n.children@, ans) {
            Err(e) => Err(e),
            Ok(m) => Ok(TemplateView { color: Some(m), ..tv }),
        }
    } else {
        Ok(tv)
    }
}

pub open spec fn template_stepper(ans: Answers) -> spec_fn(TemplateView, ParseNode) -> Result<TemplateView, StopView> {
    |tv: TemplateView, n: ParseNode| template_step(tv, n, ans)
}

fn template_step_exec(t: &mut Template, n: &ParseNode, ans: &Answers) -> (r: Result<(), Stop>)
    ensures
        step_agrees(template_step(old(t)@, *n, *ans), final(t)@, r),
{
    match n.rule {
        ConfRule::Arg => {
            let args = get_args(&n.children);
            t.add_args(args);
            Ok(())
        },
        ConfRule::Path => {
            match plain_path(&n.text) {
                Ok(p) => {
                    t.set_path(p);
                    Ok(())
                },
                Err(x) => Err(x),
            }
        },
        ConfRule::Param => {
            match param_map(&n.children, ans, false) {
                Ok(m) => {
                    let ghost before = *t;
                    t.add_param(m);
                    proof {
                        lemma_param_added(before.params, t.params, before.arg, m);
                    }
                    Ok(())
                },
                Err(x) => Err(x),
            }
        },
        ConfRule::Color => {
            match param_map(&n.children, ans, false) {
                Ok(m) => {
                    t.add_color(m);
                    Ok(())
                },
                Err(x) => Err(x),
            }
        },
        _ => Ok(()),
    }
}

/// A wallpaper description with nothing set.
pub open spec fn empty_wpaper() -> WpaperView {
    WpaperView { engine: None, path: None, wallpaper: None, config: None }
}

/// The effect of one child of a wallpaper node.
pub open spec fn wp_step(w: WpaperView, n: ParseNode, ans: Answers) -> Result<WpaperView, StopView> {
    if n.rule == ConfRule::Path {
        match expanded_path_outcome(n.text@, ans) {
            Err(e) => Err(e),
            Ok(p) => Ok(WpaperView { path: Some(p), ..w }),
        }
    } else if n.rule == ConfRule::Array {
        Ok(WpaperView { wallpaper: Some(array_texts(n.children@)), ..w })
    } else if n.rule == ConfRule::Engine {
        if last_inner(n.children@, ConfRule::Str).len() > 0 {
            Ok(WpaperView { engine: Some(last_inner(n.children@, ConfRule::Str)), ..w })
        } else {
            Ok(w)
        }
    } else if n.rule == ConfRule::Config {
        if n.children@.len() == 0 {
            Err(StopView::Fatal("config is empty"@))
        } else {
            Ok(w)
        }
    } else {
        Ok(w)
    }
}

pub open spec fn wp_stepper(ans: Answers) -> spec_fn(WpaperView, ParseNode) -> Result<WpaperView, StopView> {
    |w: WpaperView, n: ParseNode| wp_step(w, n, ans)
}

/// The wallpaper that a wallpaper node's children give: their description,
/// checked against what the file system tells of its (expanded) path.
pub open spec fn wallpaper_outcome(ns: Seq<ParseNode>, ans: Answers) -> Result<PaperView, StopView> {
    match fold_steps(empty_wpaper(), ns, wp_stepper(ans)) {
        Err(e) => Err(e),
        Ok(w) => match w.path {
            None => Err(StopView::Fatal("no path of wallpaper"@)),
            Some(x) => if !ans.probes@.dom().contains(x) {
                Err(StopView::Need(NeedView::Probe(x)))
            } else {
                match check_wpaper(w, ans.probes@[x]) {
                    None => Err(StopView::Fatal(unchecked_message())),
                    Some(Err(m)) => Err(StopView::Fatal(m)),
                    Some(Ok(p)) => Ok(p),
                }
            },
        },
    }
}

fn array_strings(ns: &Vec<ParseNode>) -> (r: Vec<String>)
    ensures
        r.deep_view() == array_texts(ns@),
{
    let mut out: Vec<String> = Vec::new();
    let mut i: usize = 0;
    assert(ns@.take(0) =~= Seq::<ParseNode>::empty());
    assert(out.deep_view() =~= array_texts(ns@.take(0)));
    while i < ns.len()
        invariant
            i <= ns@.len(),
            out.deep_view() == array_texts(ns@.take(i as int)),
        decreases ns@.len() - i,
    {
        assert(ns@.take(i as int + 1).drop_last() =~= ns@.take(i as int));
        let ghost before = out.deep_view();
        match ns[i].rule {
            ConfRule::Str => {
                if ns[i].inner_text.unicode_len() > 0 {
                    out.push(ns[i].inner_text.clone());
                    assert(out.deep_view() =~= before.push(ns@[i as int].inner_text@));
                }
            },
            _ => {},
        }
        i = i + 1;
    }
    assert(ns@.take(i as int) =~= ns@);
    out
}

fn wp_step_exec(w: &mut Wpaper, n: &ParseNode, ans: &Answers) -> (r: Result<(), Stop>)
    ensures
        step_agrees(wp_step(old(w)@, *n, *ans), final(w)@, r),
{
    match n.rule {
        ConfRule::Path => {
            match expanded_path(&n.text, ans) {
                Ok(p) => {
                    w.set_path(p);
                    Ok(())
                },
                Err(x) => Err(x),
            }
        },
        ConfRule::Array => {
            let a = array_strings(&n.children);
            w.set_wallpaper(a);
            Ok(())
        },
        ConfRule::Engine => {
            let e = find_last_text(&n.children, ConfRule::Str, true);
            if e.unicode_len() > 0 {
                w.set_engine(e);
            }
            Ok(())
        },
        ConfRule::Config => {
            if n.children.len() == 0 {
                Err(Stop::Fatal(String::from_str("config is empty")))
            } else {
                Ok(())
            }
        },
        _ => Ok(()),
    }
}

/// The wallpaper of a wallpaper node's children.
/// The description of a wallpaper node's children with the probe of its
/// path, once checking it is known to succeed.
fn wallpaper_of<'a>(ns: &Vec<ParseNode>, ans: &'a Answers) -> (r: Result<(Wpaper, &'a PaperProbe), Stop>)
    ensures
        match wallpaper_outcome(ns@, *ans) {
            Ok(p) => r matches Ok(x) && check_wpaper(x.0@, *x.1) == Some(Ok::<PaperView, Seq<char>>(p)),
            Err(e) => r matches Err(x) && x@ == e,
        },
{
    let ghost init = empty_wpaper();
    let mut w = Wpaper::new();
    let mut i: usize = 0;
    proof {
        lemma_fold_start(init, ns@, wp_stepper(*ans));
        assert(w@.config is None);
        assert(w@ == init);
    }
    while i < ns.len()
        invariant
            i <= ns@.len(),
            init == empty_wpaper(),
            fold_steps(init, ns@.take(i as int), wp_stepper(*ans)) == Ok::<WpaperView, StopView>(w@),
        decreases ns@.len() - i,
    {
        proof {
            lemma_fold_next(init, ns@, wp_stepper(*ans), i as int);
        }
        match wp_step_exec(&mut w, &ns[i], ans) {
            Ok(()) => {},
            Err(e) => {
                proof {
                    lemma_fold_stopped(init, ns@, wp_stepper(*ans), i as int + 1);
                }
                return Err(e);
            },
        }
        i = i + 1;
    }
    proof {
        lemma_fold_end(init, ns@, wp_stepper(*ans));
    }
    let path = match &w.path {
        None => {
            return Err(Stop::Fatal(String::from_str("no path of wallpaper")));
        },
        Some(p) => p.clone(),
    };
    let probe = match ans.probes.get(&path) {
        None => {
            return Err(Stop::Need(Need::Probe(path)));
        },
        Some(pr) => pr,
    };
    match check_description(&w, probe) {
        None => Err(Stop::Fatal(String::from_str("wallpaper could not be checked"))),
        Some(Err(m)) => Err(Stop::Fatal(m)),
        Some(Ok(_)) => Ok((w, probe)),
    }
}

/// A profile with an empty name and nothing else.
pub open spec fn empty_profile() -> ProfileView {
    ProfileView {
        name: Seq::empty(),
        variables: None,
        execs: None,
        script: None,
        template: None,
        color: None,
        wallpaper: None,
    }
}

/// The variable that the children of a variable node give.
pub open spec fn variable_of(ns: Seq<ParseNode>) -> VariableView {
    VariableView { name: last_text(ns, ConfRule::Var), value: Seq::empty() }
}

/// The effect of one child of a profile node.
pub open spec fn profile_step(pv: ProfileView, n: ParseNode, ans: Answers) -> Result<ProfileView, StopView> {
    if n.rule == ConfRule::Name {
        match field_outcome(n.text@) {
            Err(e) => Err(e),
            Ok(x) => Ok(ProfileView { name: x, ..pv }),
        }
    } else if n.rule == ConfRule::Variable {
        let v = variable_of(n.children@);
        Ok(
            ProfileView {
                variables: Some(
                    match pv.variables {
                        Some(m) => m,
                        None => Map::empty(),
                    }.insert(v.name, v),
                ),
                ..pv
            },
        )
    } else if n.rule == ConfRule::Script {
        match fold_steps(empty_script(), n.children@, script_stepper(ans)) {
            Err(e) => Err(e),
            Ok(sv) => Ok(ProfileView { script: Some(appended_view(pv.script, sv)), ..pv }),
        }
    } else if n.rule == ConfRule::Exec {
        match fold_steps(empty_exec(), n.children@, exec_stepper(ans)) {
            Err(e) => Err(e),
            Ok(ev) => Ok(ProfileView { execs: Some(appended_view(pv.execs, ev)), ..pv }),
        }
    } else if n.rule == ConfRule::Wallpaper {
        match wallpaper_outcome(n.children@, ans) {
            Err(e) => Err(e),
            Ok(p) => Ok(ProfileView { wallpaper: Some(p), ..pv }),
        }
    } else if n.rule == ConfRule::Template {
        match fold_steps(empty_template(), n.children@, template_stepper(ans)) {
            Err(e) => Err(e),
            Ok(tv) => Ok(ProfileView { template: Some(appended_view(pv.template, tv)), ..pv }),
        }
    } else if n.rule == ConfRule::Color {
        match color_outcome(n.children@, ans) {
            Err(e) => Err(e),
            Ok(m) => Ok(ProfileView { color: Some(m), ..pv }),
        }
    } else {
        Ok(pv)
    }
}

pub open spec fn profile_stepper(ans: Answers) -> spec_fn(ProfileView, ParseNode) -> Result<ProfileView, StopView> {
    |pv: ProfileView, n: ParseNode| profile_step(pv, n, ans)
}

fn script_of(ns: &Vec<ParseNode>, ans: &Answers) -> (r: Result<Script, Stop>)
    ensures
        match fold_steps(empty_script(), ns@, script_stepper(*ans)) {
            Ok(v) => r matches Ok(x) && x@ == v,
            Err(e) => r matches Err(x) && x@ == e,
        },
{
    let ghost init = empty_script();
    let mut s = Script::new();
    let mut i: usize = 0;
    proof {
        lemma_fold_start(init, ns@, script_stepper(*ans));
    }
    while i < ns.len()
        invariant
            i <= ns@.len(),
            init == empty_script(),
            fold_steps(init, ns@.take(i as int), script_stepper(*ans)) == Ok::<ScriptView, StopView>(s@),
        decreases ns@.len() - i,
    {
        proof {
            lemma_fold_next(init, ns@, script_stepper(*ans), i as int);
        }
        match script_step_exec(&mut s, &ns[i], ans) {
            Ok(()) => {},
            Err(e) => {
                proof {
                    lemma_fold_stopped(init, ns@, script_stepper(*ans), i as int + 1);
                }
                return Err(e);
            },
        }
        i = i + 1;
    }
    proof {
        lemma_fold_end(init, ns@, script_stepper(*ans));
    }
    Ok(s)
}

fn exec_of(ns: &Vec<ParseNode>, ans: &Answers) -> (r: Result<Exec, Stop>)
    ensures
        match fold_steps(empty_exec(), ns@, exec_stepper(*ans)) {
            Ok(v) => r matches Ok(x) && x@ == v,
            Err(e) => r matches Err(x) && x@ == e,
        },
{
    let ghost init = empty_exec();
    let mut e = Exec::new();
    let mut i: usize = 0;
    proof {
        lemma_fold_start(init, ns@, exec_stepper(*ans));
    }
    while i < ns.len()
        invariant
            i <= ns@.len(),
            init == empty_exec(),
            fold_steps(init, ns@.take(i as int), exec_stepper(*ans)) == Ok::<ExecView, StopView>(e@),
        decreases ns@.len() - i,
    {
        proof {
            lemma_fold_next(init, ns@, exec_stepper(*ans), i as int);
        }
        match exec_step_exec(&mut e, &ns[i], ans) {
            Ok(()) => {},
            Err(x) => {
                proof {
                    lemma_fold_stopped(init, ns@, exec_stepper(*ans), i as int + 1);
                }
                return Err(x);
            },
        }
        i = i + 1;
    }
    proof {
        lemma_fold_end(init, ns@, exec_stepper(*ans));
    }
    Ok(e)
}

fn template_of(ns: &Vec<ParseNode>, ans: &Answers) -> (r: Result<Template, Stop>)
    ensures
        match fold_steps(empty_template(), ns@, template_stepper(*ans)) {
            Ok(v) => r matches Ok(x) && x@ == v,
            Err(e) => r matches Err(x) && x@ == e,
        },
{
    let ghost init = empty_template();
    let mut t = Template::new();
    let mut i: usize = 0;
    proof {
        lemma_fold_start(init, ns@, template_stepper(*ans));
    }
    while i < ns.len()
        invariant
            i <= ns@.len(),
            init == empty_template(),
            fold_steps(init, ns@.take(i as int), template_stepper(*ans)) == Ok::<TemplateView, StopView>(t@),
        decreases ns@.len() - i,
    {
        proof {
            lemma_fold_next(init, ns@, template_stepper(*ans), i as int);
        }
        match template_step_exec(&mut t, &ns[i], ans) {
            Ok(()) => {},
            Err(x) => {
                proof {
                    lemma_fold_stopped(init, ns@, template_stepper(*ans), i as int + 1);
                }
                return Err(x);
            },
        }
        i = i + 1;
    }
    proof {
        lemma_fold_end(init, ns@, template_stepper(*ans));
    }
    Ok(t)
}

fn profile_step_exec(p: &mut Profile, n: &ParseNode, ans: &Answers) -> (r: Result<(), Stop>)
    ensures
        step_agrees(profile_step(old(p)@, *n, *ans), final(p)@, r),
{
    let ghost before = *p;
    match n.rule {
        ConfRule::Name => {
            match field_value(&n.text) {
                Ok(x) => {
                    p.set_name(x);
                    Ok(())
                },
                Err(e) => Err(e),
            }
        },
        ConfRule::Variable => {
            let v = get_variable(&n.children);
            p.add_variable(v);
            proof {
                assert(p@.variables == Some(crate::parser::variables_map(p.variables)));
            }
            Ok(())
        },
        ConfRule::Script => {
            match script_of(&n.children, ans) {
                Ok(s) => {
                    p.add_script(s);
                    proof {
                        lemma_appended(before.script, p.script, s);
                    }
                    Ok(())
                },
                Err(e) => Err(e),
            }
        },
        ConfRule::Exec => {
            match exec_of(&n.children, ans) {
                Ok(e) => {
                    p.add_exec(e);
                    proof {
                        lemma_appended(before.execs, p.execs, e);
                    }
                    Ok(())
                },
                Err(e) => Err(e),
            }
        },
        ConfRule::Wallpaper => {
            match wallpaper_of(&n.children, ans) {
                Ok((w, probe)) => {
                    p.set_wallpaper(w, probe);
                    Ok(())
                },
                Err(e) => Err(e),
            }
        },
        ConfRule::Template => {
            match template_of(&n.children, ans) {
                Ok(t) => {
                    p.add_template(t);
                    proof {
                        lemma_appended(before.template, p.template, t);
                    }
                    Ok(())
                },
                Err(e) => Err(e),
            }
        },
        ConfRule::Color => {
            match param_map(&n.children, ans, false) {
                Ok(m) => {
                    p.add_color(m);
                    Ok(())
                },
                Err(e) => Err(e),
            }
        },
        _ => Ok(()),
    }
}

fn profile_of(ns: &Vec<ParseNode>, ans: &Answers) -> (r: Result<Profile, Stop>)
    ensures
        match fold_steps(empty_profile(), ns@, profile_stepper(*ans)) {
            Ok(v) => r matches Ok(x) && x@ == v,
            Err(e) => r matches Err(x) && x@ == e,
        },
{
    let ghost init = empty_profile();
    let mut p = Profile::new();
    let mut i: usize = 0;
    proof {
        lemma_fold_start(init, ns@, profile_stepper(*ans));
    }
    while i < ns.len()
        invariant
            i <= ns@.len(),
            init == empty_profile(),
            fold_steps(init, ns@.take(i as int), profile_stepper(*ans)) == Ok::<ProfileView, StopView>(p@),
        decreases ns@.len() - i,
    {
        proof {
            lemma_fold_next(init, ns@, profile_stepper(*ans), i as int);
        }
        match profile_step_exec(&mut p, &ns[i], ans) {
            Ok(()) => {},
            Err(x) => {
                proof {
                    lemma_fold_stopped(init, ns@, profile_stepper(*ans), i as int + 1);
                }
                return Err(x);
            },
        }
        i = i + 1;
    }
    proof {
        lemma_fold_end(init, ns@, profile_stepper(*ans));
    }
    Ok(p)
}

/// What a file gives so far: its profiles by name, its imports and its
/// global variables by name.
pub struct TopView {
    pub profiles: Map<Seq<char>, ProfileView>,
    pub imports: Seq<Seq<char>>,
    pub globals: Map<Seq<char>, VariableView>,
}

/// Nothing yet.
pub open spec fn empty_top() -> TopView {
    TopView { profiles: Map::empty(), imports: Seq::empty(), globals: Map::empty() }
}

/// The effect of one node at the top of a file: a profile is added under
/// its name (a later one replacing an earlier one of the same name), an
/// import appended, a variable set under its name; the end of input changes
/// nothing and any other node stops reading.
pub open spec fn top_step(t: TopView, n: ParseNode, ans: Answers) -> Result<TopView, StopView> {
    if n.rule == ConfRule::Profile {
        match fold_steps(empty_profile(), n.children@, profile_stepper(ans)) {
            Err(e) => Err(e),
            Ok(pv) => Ok(TopView { profiles: t.profiles.insert(pv.name, pv), ..t }),
        }
    } else if n.rule == ConfRule::Import {
        Ok(TopView { imports: t.imports.push(last_text(n.children@, ConfRule::Key)), ..t })
    } else if n.rule == ConfRule::Variable {
        let v = variable_of(n.children@);
        Ok(TopView { globals: t.globals.insert(v.name, v), ..t })
    } else if n.rule == ConfRule::Eoi {
        Ok(t)
    } else {
        Err(StopView::Fatal(unreachable_message()))
    }
}

pub open spec fn top_stepper(ans: Answers) -> spec_fn(TopView, ParseNode) -> Result<TopView, StopView> {
    |t: TopView, n: ParseNode| top_step(t, n, ans)
}

/// What reading the parse tree of the file at `path` gives, with the
/// answers at hand.
pub open spec fn conf_outcome(path: Seq<char>, file: ParseNode, ans: Answers) -> Result<FileView, StopView> {
    match fold_steps(empty_top(), file.children@, top_stepper(ans)) {
        Err(e) => Err(e),
        Ok(t) => Ok(FileView { path, import: t.imports, profiles: t.profiles, global_variables: t.globals }),
    }
}

/// Reads the configuration file at `path` from the node of its parse tree
/// that the whole file matched, using the answers at hand. Stops at the
/// first thing it still needs from the outside world, or where the file
/// cannot be read.
pub fn interpret_conf(path: &str, file: &ParseNode, answers: &Answers) -> (r: Result<File, Stop>)
    ensures
        match conf_outcome(path@, *file, *answers) {
            Ok(v) => r matches Ok(f) && f@ == v,
            Err(e) => r matches Err(x) && x@ == e,
        },
{
    let ghost init = empty_top();
    let ns = &file.children;
    let mut profiles: KeyedMap<Profile> = KeyedMap::new();
    let mut imports: Vec<Import> = Vec::new();
    let mut globals: KeyedMap<Variable> = KeyedMap::new();
    let mut i: usize = 0;
    proof {
        lemma_fold_start(init, ns@, top_stepper(*answers));
        assert(imports@.map_values(|x: Import| x.path@) =~= Seq::<Seq<char>>::empty());
    }
    while i < ns.len()
        invariant
            i <= ns@.len(),
            ns == file.children,
            init == empty_top(),
            fold_steps(init, ns@.take(i as int), top_stepper(*answers)) == Ok::<TopView, StopView>(
                TopView {
                    profiles: profiles@,
                    imports: imports@.map_values(|x: Import| x.path@),
                    globals: globals@,
                },
            ),
        decreases ns@.len() - i,
    {
        proof {
            lemma_fold_next(init, ns@, top_stepper(*answers), i as int);
        }
        let n = &ns[i];
        match n.rule {
            ConfRule::Profile => {
                match profile_of(&n.children, answers) {
                    Ok(p) => {
                        let name = p.name.clone();
                        profiles.insert(name, p);
                    },
                    Err(e) => {
                        proof {
                            lemma_fold_stopped(init, ns@, top_stepper(*answers), i as int + 1);
                        }
                        return Err(e);
                    },
                }
            },
            ConfRule::Import => {
                let ghost before = imports@;
                let target = get_imports(&n.children);
                imports.push(Import::new(target));
                assert(imports@.map_values(|x: Import| x.path@) =~= before.map_values(|x: Import| x.path@).push(
                    last_text(n.children@, ConfRule::Key),
                ));
            },
            ConfRule::Variable => {
                let v = get_variable(&n.children);
                let name = v.name.clone();
                globals.insert(name, v);
            },
            ConfRule::Eoi => {},
            _ => {
                proof {
                    lemma_fold_stopped(init, ns@, top_stepper(*answers), i as int + 1);
                }
                return Err(Stop::Fatal(String::from_str("internal error: entered unreachable code")));
            },
        }
        i = i + 1;
    }
    proof {
        lemma_fold_end(init, ns@, top_stepper(*answers));
    }
    let mut f = File::new();
    f.add_filename(String::from_str(path));
    f.add_profiles(profiles);
    f.add_imports(imports);
    f.add_global_variables(globals);
    proof {
        assert(f.profiles@ =~= profiles@);
        assert(f.global_variables@ =~= globals@);
    }
    Ok(f)
}

/// A property that every state of a fold keeps.
pub proof fn lemma_fold_keeps<S, E>(
    init: S,
    ns: Seq<ParseNode>,
    step: spec_fn(S, ParseNode) -> Result<S, E>,
    inv: spec_fn(S) -> bool,
)
    requires
        inv(init),
        forall|st: S, n: ParseNode| inv(st) && #[trigger] step(st, n) is Ok ==> inv(step(st, n)->Ok_0),
    ensures
        fold_steps(init, ns, step) is Ok ==> inv(fold_steps(init, ns, step)->Ok_0),
    decreases ns.len(),
{
    if ns.len() > 0 {
        lemma_fold_keeps(init, ns.drop_last(), step, inv);
    }
}

/// A property that every stop of a fold has, when every step's stop has it.
pub proof fn lemma_fold_stops<S, E>(
    init: S,
    ns: Seq<ParseNode>,
    step: spec_fn(S, ParseNode) -> Result<S, E>,
    prop: spec_fn(E) -> bool,
)
    requires
        forall|st: S, n: ParseNode| #[trigger] step(st, n) is Err ==> prop(step(st, n)->Err_0),
    ensures
        fold_steps(init, ns, step) is Err ==> prop(fold_steps(init, ns, step)->Err_0),
    decreases ns.len(),
{
    if ns.len() > 0 {
        lemma_fold_stops(init, ns.drop_last(), step, prop);
    }
}

/// Every profile that a file gives is kept under its own name.
pub proof fn law_profiles_under_their_names(path: Seq<char>, file: ParseNode, ans: Answers)
    ensures
        conf_outcome(path, file, ans) matches Ok(v) ==> forall|k: Seq<char>|
            #[trigger] v.profiles.dom().contains(k) ==> v.profiles[k].name == k,
{
    let inv = |t: TopView| forall|k: Seq<char>| #[trigger] t.profiles.dom().contains(k) ==> t.profiles[k].name == k;
    assert forall|st: TopView, n: ParseNode| inv(st) && #[trigger] top_stepper(ans)(st, n) is Ok implies inv(
        top_stepper(ans)(st, n)->Ok_0,
    ) by {
        let nt = top_stepper(ans)(st, n)->Ok_0;
        assert forall|k: Seq<char>| #[trigger] nt.profiles.dom().contains(k) implies nt.profiles[k].name == k by {
            if n.rule == ConfRule::Profile {
                let pv = fold_steps(empty_profile(), n.children@, profile_stepper(ans))->Ok_0;
                if k != pv.name {
                    assert(st.profiles.dom().contains(k));
                }
            } else {
                assert(st.profiles.dom().contains(k));
            }
        }
    }
    assert(inv(empty_top()));
    lemma_fold_keeps(empty_top(), file.children@, top_stepper(ans), inv);
}

/// A stop names only what the answers do not hold yet.
pub open spec fn unanswered(e: StopView, ans: Answers) -> bool {
    match e {
        StopView::Need(NeedView::Expand(p)) => !ans.expanded@.dom().contains(p),
        StopView::Need(NeedView::FileMap(p)) => !ans.file_maps@.dom().contains(p),
        StopView::Need(NeedView::JsonMap(p)) => !ans.json_maps@.dom().contains(p),
        StopView::Need(NeedView::Probe(p)) => !ans.probes@.dom().contains(p),
        StopView::Fatal(_) => true,
    }
}

pub open spec fn unanswered_by(ans: Answers) -> spec_fn(StopView) -> bool {
    |e: StopView| unanswered(e, ans)
}

proof fn lemma_params_unanswered(ns: Seq<ParseNode>, ans: Answers)
    ensures
        params_outcome(ns, ans) matches Err(e) ==> unanswered(e, ans),
        file_param_outcome(ns, ans) matches Err(e) ==> unanswered(e, ans),
        json_param_outcome(ns, ans) matches Err(e) ==> unanswered(e, ans),
        color_outcome(ns, ans) matches Err(e) ==> unanswered(e, ans),
{
    assert forall|st: ParamsAcc, n: ParseNode| #[trigger] params_stepper(ans)(st, n) is Err implies unanswered_by(ans)(
        params_stepper(ans)(st, n)->Err_0,
    ) by {}
    lemma_fold_stops(ParamsAcc { path: None, map: None }, ns, params_stepper(ans), unanswered_by(ans));
}

proof fn lemma_steps_unanswered(ans: Answers)
    ensures
        forall|st: ScriptView, n: ParseNode| #[trigger] script_stepper(ans)(st, n) is Err ==> unanswered_by(ans)(
            script_stepper(ans)(st, n)->Err_0,
        ),
        forall|st: ExecView, n: ParseNode| #[trigger] exec_stepper(ans)(st, n) is Err ==> unanswered_by(ans)(
            exec_stepper(ans)(st, n)->Err_0,
        ),
        forall|st: TemplateView, n: ParseNode| #[trigger] template_stepper(ans)(st, n) is Err ==> unanswered_by(ans)(
            template_stepper(ans)(st, n)->Err_0,
        ),
        forall|st: WpaperView, n: ParseNode| #[trigger] wp_stepper(ans)(st, n) is Err ==> unanswered_by(ans)(
            wp_stepper(ans)(st, n)->Err_0,
        ),
{
    assert forall|st: ScriptView, n: ParseNode| #[trigger] script_stepper(ans)(st, n) is Err implies unanswered_by(ans)(
        script_stepper(ans)(st, n)->Err_0,
    ) by {
        lemma_params_unanswered(n.children@, ans);
    }
    assert forall|st: ExecView, n: ParseNode| #[trigger] exec_stepper(ans)(st, n) is Err implies unanswered_by(ans)(
        exec_stepper(ans)(st, n)->Err_0,
    ) by {
        lemma_params_unanswered(n.children@, ans);
    }
    assert forall|st: TemplateView, n: ParseNode| #[trigger] template_stepper(ans)(st, n) is Err implies unanswered_by(ans)(
        template_stepper(ans)(st, n)->Err_0,
    ) by {
        lemma_params_unanswered(n.children@, ans);
    }
    assert forall|st: WpaperView, n: ParseNode| #[trigger] wp_stepper(ans)(st, n) is Err implies unanswered_by(ans)(
        wp_stepper(ans)(st, n)->Err_0,
    ) by {}
}

/// When reading stops for something from the outside world, that thing is
/// not among the answers yet: answering it and reading again makes
/// progress.
pub proof fn law_stops_name_unanswered(path: Seq<char>, file: ParseNode, ans: Answers)
    ensures
        conf_outcome(path, file, ans) matches Err(e) ==> unanswered(e, ans),
{
    lemma_steps_unanswered(ans);
    assert forall|st: ProfileView, n: ParseNode| #[trigger] profile_stepper(ans)(st, n) is Err implies unanswered_by(ans)(
        profile_stepper(ans)(st, n)->Err_0,
    ) by {
        lemma_params_unanswered(n.children@, ans);
        lemma_fold_stops(empty_script(), n.children@, script_stepper(ans), unanswered_by(ans));
        lemma_fold_stops(empty_exec(), n.children@, exec_stepper(ans), unanswered_by(ans));
        lemma_fold_stops(empty_template(), n.children@, template_stepper(ans), unanswered_by(ans));
        lemma_fold_stops(empty_wpaper(), n.children@, wp_stepper(ans), unanswered_by(ans));
    }
    assert forall|st: TopView, n: ParseNode| #[trigger] top_stepper(ans)(st, n) is Err implies unanswered_by(ans)(
        top_stepper(ans)(st, n)->Err_0,
    ) by {
        lemma_fold_stops(empty_profile(), n.children@, profile_stepper(ans), unanswered_by(ans));
    }
    lemma_fold_stops(empty_top(), file.children@, top_stepper(ans), unanswered_by(ans));
}

/// What a wallpaper node's children give after the engine node at `i`, no
/// later child being an engine node, keeps that node's engine.
proof fn lemma_engine_kept(ns: Seq<ParseNode>, ans: Answers, i: int, s: Seq<char>, k: int)
    requires
        0 <= i < k <= ns.len(),
        ns[i].rule == ConfRule::Engine,
        ns[i].children@.len() > 0,
        ns[i].children@.last().rule == ConfRule::Str,
        ns[i].children@.last().inner_text@ == s,
        s.len() > 0,
        forall|j: int| i < j < ns.len() ==> (#[trigger] ns[j]).rule != ConfRule::Engine,
    ensures
        fold_steps(empty_wpaper(), ns.take(k), wp_stepper(ans)) matches Ok(w) ==> w.engine == Some(s),
    decreases k,
{
    let t = ns.take(k);
    assert(t.drop_last() =~= ns.take(k - 1));
    assert(t.last() == ns[k - 1]);
    if k - 1 > i {
        lemma_engine_kept(ns, ans, i, s, k - 1);
        assert(ns[k - 1].rule != ConfRule::Engine);
    } else {
        assert(last_inner(ns[i].children@, ConfRule::Str) == s);
    }
}

/// A wallpaper node whose last engine child holds a non-empty string `s`
/// describes a wallpaper drawn by `s`: what the description is checked into
/// carries the engine `s`, whatever its settings.
pub proof fn law_wallpaper_engine(ns: Seq<ParseNode>, ans: Answers, i: int, s: Seq<char>)
    requires
        0 <= i < ns.len(),
        ns[i].rule == ConfRule::Engine,
        ns[i].children@.len() > 0,
        ns[i].children@.last().rule == ConfRule::Str,
        ns[i].children@.last().inner_text@ == s,
        s.len() > 0,
        forall|j: int| i < j < ns.len() ==> (#[trigger] ns[j]).rule != ConfRule::Engine,
    ensures
        fold_steps(empty_wpaper(), ns, wp_stepper(ans)) matches Ok(w) ==> w.engine == Some(s),
        wallpaper_outcome(ns, ans) matches Ok(q) ==> paper_config(q).engine == s,
{
    lemma_engine_kept(ns, ans, i, s, ns.len() as int);
    assert(ns.take(ns.len() as int) =~= ns);
    match fold_steps(empty_wpaper(), ns, wp_stepper(ans)) {
        Ok(w) => {
            if let Some(x) = w.path {
                if ans.probes@.dom().contains(x) {
                    law_checked_engine(w, ans.probes@[x], Seq::empty(), s);
                }
            }
        },
        Err(_) => {},
    }
}

} // verus!
