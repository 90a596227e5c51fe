//! The configuration read from a configuration file: profiles with their
//! variables, programs, scripts, templates, colours and wallpaper, the
//! imports of a file, and the file as a whole.

use vstd::prelude::*;
use vstd::string::*;
use crate::keyed::KeyedMap;
use crate::wpaper::{Paper, PaperView, PaperProbe, check_wpaper, check_paper};

verus! {

/// A map from strings to strings.
pub type StringMap = KeyedMap<String>;

/// A wallpaper as a profile describes it before it is checked against the
/// file system.
#[derive(Debug)]
pub struct Wpaper {
    pub engine: Option<String>,
    pub path: Option<String>,
    pub wallpaper: Option<Vec<String>>,
    pub config: Option<StringMap>,
}

impl Wpaper {
    /// A wallpaper description with nothing set.
    pub fn new() -> (w: Wpaper)
        ensures
            w.engine is None,
            w.path is None,
            w.wallpaper is None,
            w.config is None,
    {
        Wpaper { engine: None, path: None, wallpaper: None, config: None }
    }

    /// Sets the path.
    pub fn set_path(&mut self, path: String)
        ensures
            final(self).path == Some(path),
            final(self).engine == old(self).engine,
            final(self).wallpaper == old(self).wallpaper,
            final(self).config == old(self).config,
    {
        self.path = Some(path);
    }

    /// Sets the configuration.
    pub fn set_config(&mut self, config: StringMap)
        ensures
            final(self).config == Some(config),
            final(self).engine == old(self).engine,
            final(self).path == old(self).path,
            final(self).wallpaper == old(self).wallpaper,
    {
        self.config = Some(config);
    }

    /// Sets the engine.
    pub fn set_engine(&mut self, engine: String)
        ensures
            final(self).engine == Some(engine),
            final(self).path == old(self).path,
            final(self).wallpaper == old(self).wallpaper,
            final(self).config == old(self).config,
    {
        self.engine = Some(engine);
    }

    /// Sets the list of wallpaper names.
    pub fn set_wallpaper(&mut self, wallpaper: Vec<String>)
        ensures
            final(self).wallpaper == Some(wallpaper),
            final(self).engine == old(self).engine,
            final(self).path == old(self).path,
            final(self).config == old(self).config,
    {
        self.wallpaper = Some(wallpaper);
    }
}

/// A named value.
#[derive(Debug, Clone)]
pub struct Variable {
    pub name: String,
    pub value: String,
}

/// The model of a variable.
pub struct VariableView {
    pub name: Seq<char>,
    pub value: Seq<char>,
}

impl View for Variable {
    type V = VariableView;

    open spec fn view(&self) -> VariableView {
        VariableView { name: self.name@, value: self.value@ }
    }
}

impl Variable {
    /// The variable `name` with `value`.
    pub fn new(name: String, value: String) -> (v: Variable)
        ensures
            v.name == name,
            v.value == value,
    {
        Variable { name, value }
    }
}

/// A file that another configuration file imports.
#[derive(Debug, Clone)]
pub struct Import {
    pub path: String,
}

impl Import {
    /// The import of `path`.
    pub fn new(path: String) -> (i: Import)
        ensures
            i.path == path,
    {
        Import { path }
    }
}

/// The imports of one configuration file.
#[derive(Debug, Clone)]
pub struct Imports {
    pub file: String,
    pub import: Vec<Import>,
}

impl Imports {
    /// No file name and no import.
    pub fn new() -> (i: Imports)
        ensures
            i.file@ == Seq::<char>::empty(),
            i.import@ == Seq::<Import>::empty(),
    {
        Imports { import: Vec::new(), file: String::new() }
    }

    /// Adds the import of `path` at the end.
    pub fn add(&mut self, path: String)
        ensures
            final(self).import@ == old(self).import@.push(Import { path }),
            final(self).file == old(self).file,
    {
        self.import.push(Import::new(path));
    }

    /// Sets the name of the importing file.
    pub fn set_filename(&mut self, file: String)
        ensures
            final(self).file == file,
            final(self).import == old(self).import,
    {
        self.file = file;
    }
}

/// The effect of adding `item` to an optional list: it is appended, or it
/// starts the list.
pub open spec fn appended<T>(list: Option<Vec<T>>, item: T) -> Seq<T> {
    match list {
        Some(v) => v@.push(item),
        None => seq![item],
    }
}

/// Appends `item` to an optional list, starting the list when there is none.
fn append_to<T>(list: &mut Option<Vec<T>>, item: T)
    ensures
        *final(list) matches Some(v) && v@ == appended(*old(list), item),
{
    match list.take() {
        Some(mut v) => {
            v.push(item);
            *list = Some(v);
        },
        None => {
            let mut v = Vec::new();
            v.push(item);
            assert(v@ =~= seq![item]);
            *list = Some(v);
        },
    }
}

/// The effect of adding a parameter map to an optional list of them when the
/// owner's argument list is `arg`: it is appended to an existing list; with
/// no list it starts one only while there are no arguments, and is dropped
/// otherwise.
pub open spec fn param_added<T>(params: Option<Vec<T>>, arg: Option<Vec<String>>, param: T) -> Option<Seq<T>> {
    match params {
        Some(v) => Some(v@.push(param)),
        None => if arg is None {
            Some(seq![param])
        } else {
            None
        },
    }
}

/// The view of an optional list.
pub open spec fn opt_seq<T>(o: Option<Vec<T>>) -> Option<Seq<T>> {
    match o {
        Some(v) => Some(v@),
        None => None,
    }
}

fn add_param_to(params: &mut Option<Vec<StringMap>>, arg: &Option<Vec<String>>, param: StringMap)
    ensures
        opt_seq(*final(params)) == param_added(*old(params), *arg, param),
{
    if params.is_some() {
        append_to(params, param);
    } else if arg.is_none() {
        let mut v = Vec::new();
        v.push(param);
        assert(v@ =~= seq![param]);
        *params = Some(v);
    }
}

/// The effect of adding `arg` to an optional argument list.
fn add_arg_to(args: &mut Option<Vec<String>>, arg: String)
    ensures
        *final(args) matches Some(v) && v@ == appended(*old(args), arg),
{
    append_to(args, arg);
}

/// A script that a profile runs, with its arguments and parameter maps.
#[derive(Debug)]
pub struct Script {
    pub path: Option<String>,
    pub arg: Option<Vec<String>>,
    pub params: Option<Vec<StringMap>>,
}

impl Script {
    /// A script with nothing set.
    pub fn new() -> (s: Script)
        ensures
            s.path is None,
            s.arg is None,
            s.params is None,
    {
        Script { path: None, arg: None, params: None }
    }

    /// Sets the path.
    pub fn set_path(&mut self, path: String)
        ensures
            final(self).path == Some(path),
            final(self).arg == old(self).arg,
            final(self).params == old(self).params,
    {
        self.path = Some(path);
    }

    /// Replaces the arguments.
    pub fn add_args(&mut self, args: Vec<String>)
        ensures
            final(self).arg == Some(args),
            final(self).path == old(self).path,
            final(self).params == old(self).params,
    {
        self.arg = Some(args);
    }

    /// Appends one argument.
    pub fn add_arg(&mut self, arg: String)
        ensures
            final(self).arg matches Some(v) && v@ == appended(old(self).arg, arg),
            final(self).path == old(self).path,
            final(self).params == old(self).params,
    {
        add_arg_to(&mut self.arg, arg);
    }

    /// Adds a parameter map (dropped when there is no list yet but there
    /// are arguments).
    pub fn add_param(&mut self, param: StringMap)
        ensures
            opt_seq(final(self).params) == param_added(old(self).params, old(self).arg, param),
            final(self).path == old(self).path,
            final(self).arg == old(self).arg,
    {
        add_param_to(&mut self.params, &self.arg, param);
    }
}

/// An empty parameter record.
#[derive(Debug)]
pub struct Param {}

/// An empty command record.
#[derive(Debug, Clone)]
pub struct Cmd {}

/// An empty argument record.
#[derive(Debug, Clone)]
pub struct Arg {}

/// A colour scheme: colour names mapped to values.
#[derive(Debug)]
pub struct Color(pub StringMap);

impl Color {
    /// No colour.
    pub fn new() -> (c: Color)
        ensures
            c.0.as_map() == Map::<Seq<char>, Seq<char>>::empty(),
    {
        Color(KeyedMap::new())
    }

    /// The single colour `key` with `value`.
    pub fn make_new(key: String, value: String) -> (c: Color)
        ensures
            c.0.as_map() == Map::<Seq<char>, Seq<char>>::empty().insert(key@, value@),
    {
        Color(KeyedMap::singleton(key, value))
    }

    /// Sets the colour `name`.
    pub fn add(&mut self, name: String, value: String)
        ensures
            final(self).0.as_map() == old(self).0.as_map().insert(name@, value@),
    {
        self.0.insert(name, value);
    }

    /// The value of the colour `name`, if there is one.
    pub fn get(&self, name: &str) -> (r: Option<String>)
        ensures
            r is Some <==> self.0.as_map().dom().contains(name@),
            r matches Some(v) ==> v@ == self.0.as_map()[name@],
    {
        let key = String::from_str(name);
        match self.0.get(&key) {
            Some(v) => Some(v.clone()),
            None => None,
        }
    }

    /// All colours.
    pub fn get_all(&self) -> (m: StringMap)
        ensures
            m.as_map() == self.0.as_map(),
    {
        self.0.copy()
    }

    /// Adds every colour of `map_ref`, its values winning.
    pub fn merge(&mut self, map_ref: Color)
        ensures
            final(self).0.as_map() == old(self).0.as_map().union_prefer_right(map_ref.0.as_map()),
    {
        let Color(m) = map_ref;
        self.0.extend(m);
    }
}

/// A template that a profile fills in.
#[derive(Debug)]
pub struct Template {
    pub path: String,
    pub out: String,
    pub color: Option<Color>,
    pub arg: Option<Vec<String>>,
    pub params: Option<Vec<StringMap>>,
}

impl Template {
    /// A template with empty paths and nothing else.
    pub fn new() -> (t: Template)
        ensures
            t.path@ == Seq::<char>::empty(),
            t.out@ == Seq::<char>::empty(),
            t.color is None,
            t.arg is None,
            t.params is None,
    {
        Template { path: String::new(), out: String::new(), color: None, arg: None, params: None }
    }

    /// Sets the path.
    pub fn set_path(&mut self, path: String)
        ensures
            final(self).path == path,
            final(self).out == old(self).out,
            final(self).color == old(self).color,
            final(self).arg == old(self).arg,
            final(self).params == old(self).params,
    {
        self.path = path;
    }

    /// Sets the output path.
    pub fn set_out(&mut self, out: String)
        ensures
            final(self).out == out,
            final(self).path == old(self).path,
            final(self).color == old(self).color,
            final(self).arg == old(self).arg,
            final(self).params == old(self).params,
    {
        self.out = out;
    }

    /// Adds a parameter map (dropped when there is no list yet but there
    /// are arguments).
    pub fn add_param(&mut self, param: StringMap)
        ensures
            opt_seq(final(self).params) == param_added(old(self).params, old(self).arg, param),
            final(self).path == old(self).path,
            final(self).out == old(self).out,
            final(self).color == old(self).color,
            final(self).arg == old(self).arg,
    {
        add_param_to(&mut self.params, &self.arg, param);
    }

    /// Sets the colours.
    pub fn add_color(&mut self, color: StringMap)
        ensures
            final(self).color == Some(Color(color)),
            final(self).path == old(self).path,
            final(self).out == old(self).out,
            final(self).arg == old(self).arg,
            final(self).params == old(self).params,
    {
        self.color = Some(Color(color));
    }

    /// Replaces the arguments.
    pub fn add_args(&mut self, args: Vec<String>)
        ensures
            final(self).arg == Some(args),
            final(self).path == old(self).path,
            final(self).out == old(self).out,
            final(self).color == old(self).color,
            final(self).params == old(self).params,
    {
        self.arg = Some(args);
    }

    /// Appends one argument.
    pub fn add_arg(&mut self, arg: String)
        ensures
            final(self).arg matches Some(v) && v@ == appended(old(self).arg, arg),
            final(self).path == old(self).path,
            final(self).out == old(self).out,
            final(self).color == old(self).color,
            final(self).params == old(self).params,
    {
        add_arg_to(&mut self.arg, arg);
    }
}

/// A program that a profile runs, given by path or by command name.
#[derive(Debug)]
pub struct Exec {
    pub arg: Option<Vec<String>>,
    pub path: Option<String>,
    pub cmd: Option<String>,
    pub params: Option<Vec<StringMap>>,
}

impl Exec {
    /// A program with nothing set.
    pub fn new() -> (e: Exec)
        ensures
            e.path is None,
            e.arg is None,
            e.params is None,
            e.cmd is None,
    {
        Exec { path: None, arg: None, params: None, cmd: None }
    }

    /// Sets the command name.
    pub fn set_cmd(&mut self, cmd: String)
        ensures
            final(self).cmd == Some(cmd),
            final(self).path == old(self).path,
            final(self).arg == old(self).arg,
            final(self).params == old(self).params,
    {
        self.cmd = Some(cmd);
    }

    /// Sets the path.
    pub fn set_path(&mut self, path: String)
        ensures
            final(self).path == Some(path),
            final(self).cmd == old(self).cmd,
            final(self).arg == old(self).arg,
            final(self).params == old(self).params,
    {
        self.path = Some(path);
    }

    /// Appends one argument.
    pub fn add_arg(&mut self, arg: String)
        ensures
            final(self).arg matches Some(v) && v@ == appended(old(self).arg, arg),
            final(self).path == old(self).path,
            final(self).cmd == old(self).cmd,
            final(self).params == old(self).params,
    {
        add_arg_to(&mut self.arg, arg);
    }

    /// Replaces the arguments.
    pub fn add_args(&mut self, args: Vec<String>)
        ensures
            final(self).arg == Some(args),
            final(self).path == old(self).path,
            final(self).cmd == old(self).cmd,
            final(self).params == old(self).params,
    {
        self.arg = Some(args);
    }

    /// Adds a parameter map (dropped when there is no list yet but there
    /// are arguments).
    pub fn add_param(&mut self, param: StringMap)
        ensures
            opt_seq(final(self).params) == param_added(old(self).params, old(self).arg, param),
            final(self).path == old(self).path,
            final(self).cmd == old(self).cmd,
            final(self).arg == old(self).arg,
    {
        add_param_to(&mut self.params, &self.arg, param);
    }
}

/// A profile: a named set of variables, programs, scripts, templates,
/// colours and a wallpaper.
#[derive(Debug)]
pub struct Profile {
    pub name: String,
    pub variables: Option<KeyedMap<Variable>>,
    pub execs: Option<Vec<Exec>>,
    pub script: Option<Vec<Script>>,
    pub template: Option<Vec<Template>>,
    pub color: Option<Color>,
    pub wallpaper: Option<Paper>,
}

/// The model of a script.
pub struct ScriptView {
    pub path: Option<Seq<char>>,
    pub arg: Option<Seq<Seq<char>>>,
    pub params: Option<Seq<Map<Seq<char>, Seq<char>>>>,
}

/// The model of a program.
pub struct ExecView {
    pub arg: Option<Seq<Seq<char>>>,
    pub path: Option<Seq<char>>,
    pub cmd: Option<Seq<char>>,
    pub params: Option<Seq<Map<Seq<char>, Seq<char>>>>,
}

/// The model of a template.
pub struct TemplateView {
    pub path: Seq<char>,
    pub out: Seq<char>,
    pub color: Option<Map<Seq<char>, Seq<char>>>,
    pub arg: Option<Seq<Seq<char>>>,
    pub params: Option<Seq<Map<Seq<char>, Seq<char>>>>,
}

/// The model of a profile.
pub struct ProfileView {
    pub name: Seq<char>,
    pub variables: Option<Map<Seq<char>, VariableView>>,
    pub execs: Option<Seq<ExecView>>,
    pub script: Option<Seq<ScriptView>>,
    pub template: Option<Seq<TemplateView>>,
    pub color: Option<Map<Seq<char>, Seq<char>>>,
    pub wallpaper: Option<PaperView>,
}

/// The model of a list of parameter maps.
pub open spec fn params_view(p: Option<Vec<StringMap>>) -> Option<Seq<Map<Seq<char>, Seq<char>>>> {
    match p {
        Some(v) => Some(v@.map_values(|m: StringMap| m@)),
        None => None,
    }
}

/// The model of a colour scheme, if there is one.
pub open spec fn color_view(c: Option<Color>) -> Option<Map<Seq<char>, Seq<char>>> {
    match c {
        Some(c) => Some(c.0@),
        None => None,
    }
}

impl View for Script {
    type V = ScriptView;

    open spec fn view(&self) -> ScriptView {
        ScriptView { path: self.path.deep_view(), arg: self.arg.deep_view(), params: params_view(self.params) }
    }
}

impl View for Exec {
    type V = ExecView;

    open spec fn view(&self) -> ExecView {
        ExecView {
            arg: self.arg.deep_view(),
            path: self.path.deep_view(),
            cmd: self.cmd.deep_view(),
            params: params_view(self.params),
        }
    }
}

impl View for Template {
    type V = TemplateView;

    open spec fn view(&self) -> TemplateView {
        TemplateView {
            path: self.path@,
            out: self.out@,
            color: color_view(self.color),
            arg: self.arg.deep_view(),
            params: params_view(self.params),
        }
    }
}

/// The models of the items of an optional list.
pub open spec fn opt_views<T: View>(o: Option<Vec<T>>) -> Option<Seq<T::V>> {
    match o {
        Some(v) => Some(v@.map_values(|t: T| t@)),
        None => None,
    }
}

impl View for Profile {
    type V = ProfileView;

    open spec fn view(&self) -> ProfileView {
        ProfileView {
            name: self.name@,
            variables: match self.variables {
                Some(m) => Some(m@),
                None => None,
            },
            execs: opt_views(self.execs),
            script: opt_views(self.script),
            template: opt_views(self.template),
            color: color_view(self.color),
            wallpaper: match self.wallpaper {
                Some(p) => Some(p@),
                None => None,
            },
        }
    }
}

/// The variables of a profile as a map from names (empty without any).
pub open spec fn variables_map(v: Option<KeyedMap<Variable>>) -> Map<Seq<char>, VariableView> {
    match v {
        Some(m) => m.as_map(),
        None => Map::empty(),
    }
}

impl Profile {
    /// A profile with an empty name and nothing else.
    pub fn new() -> (p: Profile)
        ensures
            p.name@ == Seq::<char>::empty(),
            p.variables is None,
            p.execs is None,
            p.script is None,
            p.template is None,
            p.color is None,
            p.wallpaper is None,
    {
        Profile {
            name: String::new(),
            variables: None,
            execs: None,
            script: None,
            template: None,
            color: None,
            wallpaper: None,
        }
    }

    /// Sets the wallpaper: the description checked against the file system,
    /// which `probe` describes for its path. The check must succeed.
    pub fn set_wallpaper(&mut self, wallpaper: Wpaper, probe: &PaperProbe)
        requires
            check_wpaper(wallpaper@, *probe) matches Some(r) && r is Ok,
        ensures
            final(self)@ == (ProfileView {
                wallpaper: Some(check_wpaper(wallpaper@, *probe).unwrap()->Ok_0),
                ..old(self)@
            }),
    {
        match check_paper(Paper::Wpaper(wallpaper), probe) {
            Ok(p) => {
                self.wallpaper = Some(p);
            },
            Err(_) => {},
        }
    }

    /// Sets the name.
    pub fn set_name(&mut self, name: String)
        ensures
            *final(self) == (Profile { name, ..*old(self) }),
    {
        self.name = name;
    }

    /// Adds a variable under its name, replacing one of the same name.
    pub fn add_variable(&mut self, variable: Variable)
        ensures
            final(self).variables is Some,
            variables_map(final(self).variables) == variables_map(old(self).variables).insert(
                variable.name@,
                variable@,
            ),
            *final(self) == (Profile { variables: final(self).variables, ..*old(self) }),
    {
        let name = variable.name.clone();
        match self.variables.take() {
            Some(mut m) => {
                m.insert(name, variable);
                self.variables = Some(m);
            },
            None => {
                let mut m = KeyedMap::new();
                m.insert(name, variable);
                self.variables = Some(m);
            },
        }
    }

    /// Appends a program.
    pub fn add_exec(&mut self, exec: Exec)
        ensures
            final(self).execs matches Some(v) && v@ == appended(old(self).execs, exec),
            *final(self) == (Profile { execs: final(self).execs, ..*old(self) }),
    {
        append_to(&mut self.execs, exec);
    }

    /// Appends a script.
    pub fn add_script(&mut self, script: Script)
        ensures
            final(self).script matches Some(v) && v@ == appended(old(self).script, script),
            *final(self) == (Profile { script: final(self).script, ..*old(self) }),
    {
        append_to(&mut self.script, script);
    }

    /// Sets the colours.
    pub fn add_color(&mut self, color: StringMap)
        ensures
            *final(self) == (Profile { color: Some(Color(color)), ..*old(self) }),
    {
        self.color = Some(Color(color));
    }

    /// Appends a template.
    pub fn add_template(&mut self, template: Template)
        ensures
            final(self).template matches Some(v) && v@ == appended(old(self).template, template),
            *final(self) == (Profile { template: final(self).template, ..*old(self) }),
    {
        append_to(&mut self.template, template);
    }
}

/// A configuration file: its path, its imports, its profiles by name and
/// its global variables by name.
#[derive(Debug)]
pub struct File {
    pub path: String,
    pub import: Vec<Import>,
    pub profiles: KeyedMap<Profile>,
    pub global_variables: KeyedMap<Variable>,
}

/// The model of a configuration file.
pub struct FileView {
    pub path: Seq<char>,
    pub import: Seq<Seq<char>>,
    pub profiles: Map<Seq<char>, ProfileView>,
    pub global_variables: Map<Seq<char>, VariableView>,
}

impl View for File {
    type V = FileView;

    open spec fn view(&self) -> FileView {
        FileView {
            path: self.path@,
            import: self.import@.map_values(|i: Import| i.path@),
            profiles: self.profiles@,
            global_variables: self.global_variables@,
        }
    }
}

impl File {
    /// A file with an empty path and nothing in it.
    pub fn new() -> (f: File)
        ensures
            f.path@ == Seq::<char>::empty(),
            f.import@ == Seq::<Import>::empty(),
            f.profiles.as_map() == Map::<Seq<char>, ProfileView>::empty(),
            f.global_variables.as_map() == Map::<Seq<char>, VariableView>::empty(),
    {
        File { path: String::new(), import: Vec::new(), profiles: KeyedMap::new(), global_variables: KeyedMap::new() }
    }

    /// Sets the path.
    pub fn add_filename(&mut self, path: String)
        ensures
            *final(self) == (File { path, ..*old(self) }),
    {
        self.path = path;
    }

    /// Adds profiles; those of `profile` win over profiles of the same name.
    pub fn add_profiles(&mut self, profile: KeyedMap<Profile>)
        ensures
            final(self).profiles.as_map() == old(self).profiles.as_map().union_prefer_right(profile.as_map()),
            final(self).path == old(self).path,
            final(self).import == old(self).import,
            final(self).global_variables == old(self).global_variables,
    {
        if self.profiles.is_empty() {
            assert(Map::<Seq<char>, ProfileView>::empty().union_prefer_right(profile.as_map()) =~= profile.as_map());
            self.profiles = profile;
        } else {
            self.profiles.extend(profile);
        }
    }

    /// Adds global variables; those of `global_variables` win over
    /// variables of the same name.
    pub fn add_global_variables(&mut self, global_variables: KeyedMap<Variable>)
        ensures
            final(self).global_variables.as_map() == old(self).global_variables.as_map().union_prefer_right(
                global_variables.as_map(),
            ),
            final(self).path == old(self).path,
            final(self).import == old(self).import,
            final(self).profiles == old(self).profiles,
    {
        if self.global_variables.is_empty() {
            assert(Map::<Seq<char>, VariableView>::empty().union_prefer_right(global_variables.as_map())
                =~= global_variables.as_map());
            self.global_variables = global_variables;
        } else {
            self.global_variables.extend(global_variables);
        }
    }

    /// Appends one import.
    pub fn add_import(&mut self, import: Import)
        ensures
            final(self).import@ == old(self).import@.push(import),
            final(self).path == old(self).path,
            final(self).profiles == old(self).profiles,
            final(self).global_variables == old(self).global_variables,
    {
        self.import.push(import);
    }

    /// Appends imports.
    pub fn add_imports(&mut self, imports: Vec<Import>)
        ensures
            final(self).import@ == old(self).import@ + imports@,
            final(self).path == old(self).path,
            final(self).profiles == old(self).profiles,
            final(self).global_variables == old(self).global_variables,
    {
        if self.import.len() == 0 {
            assert(self.import@ + imports@ =~= imports@);
            self.import = imports;
        } else {
            let mut more = imports;
            self.import.append(&mut more);
        }
    }

    /// Adds a profile under its name, replacing one of the same name.
    pub fn add_profile(&mut self, profile: Profile)
        ensures
            final(self).profiles.as_map() == old(self).profiles.as_map().insert(profile.name@, profile@),
            final(self).path == old(self).path,
            final(self).import == old(self).import,
            final(self).global_variables == old(self).global_variables,
    {
        let name = profile.name.clone();
        self.profiles.insert(name, profile);
    }

    /// Adds a global variable under its name, replacing one of the same name.
    pub fn add_global_variable(&mut self, variable: Variable)
        ensures
            final(self).global_variables.as_map() == old(self).global_variables.as_map().insert(
                variable.name@,
                variable@,
            ),
            final(self).path == old(self).path,
            final(self).import == old(self).import,
            final(self).profiles == old(self).profiles,
    {
        let name = variable.name.clone();
        self.global_variables.insert(name, variable);
    }
}

} // verus!
