use wayland_utils::interpret::{
    get_args, get_cmd, get_imports, get_params, get_path, get_variable, interpret_conf, Answers,
    ConfRule, Need, ParamsResult, ParseNode, Stop,
};
use wayland_utils::keyed::KeyedMap;
use wayland_utils::wallpaper::DirProbe;
use wayland_utils::wpaper::{Paper, PaperProbe};

fn node(rule: ConfRule, text: &str, inner: &str, children: Vec<ParseNode>) -> ParseNode {
    ParseNode { rule, text: text.to_string(), inner_text: inner.to_string(), children }
}

fn leaf(rule: ConfRule, text: &str) -> ParseNode {
    node(rule, text, "", vec![])
}

/// A string node `"s"` with its inner text.
fn string(s: &str) -> ParseNode {
    let quoted = format!("\"{}\"", s);
    node(ConfRule::Str, &quoted, s, vec![leaf(ConfRule::Other, s)])
}

fn file(children: Vec<ParseNode>) -> ParseNode {
    node(ConfRule::File, "", "", children)
}

fn pair(key: &str, value: &str) -> ParseNode {
    node(
        ConfRule::OPair,
        "",
        "",
        vec![node(ConfRule::Key, key, key, vec![]), string(value)],
    )
}

fn profile(name: &str, rest: Vec<ParseNode>) -> ParseNode {
    let mut children = vec![leaf(ConfRule::Name, &format!("name={}", name))];
    children.extend(rest);
    node(ConfRule::Profile, "", "", children)
}

fn variable(name: &str) -> ParseNode {
    node(ConfRule::Variable, "", "", vec![leaf(ConfRule::Var, name), string("v")])
}

fn file_probe() -> PaperProbe {
    PaperProbe {
        exists: true,
        is_dir: false,
        is_file: true,
        items: vec![],
        group: DirProbe { exists: true, is_dir: false, items: vec![] },
    }
}

#[test]
fn path_of_text() {
    assert_eq!(get_path("path=\"~/a b\""), "~/a b");
    assert_eq!(get_path("path=plain"), "plain");
    assert_eq!(get_path("path=a=b"), "a");
    assert_eq!(get_cmd("cmd=ls -l"), "ls -l");
}

#[test]
fn args_skip_empty_brackets() {
    let arr = node(
        ConfRule::Array,
        "",
        "",
        vec![
            node(ConfRule::Str, "", "", vec![leaf(ConfRule::Other, "-a"), leaf(ConfRule::Other, "[]")]),
            leaf(ConfRule::Key, "ignored"),
            node(ConfRule::Str, "", "", vec![leaf(ConfRule::Other, "x")]),
        ],
    );
    let args = get_args(&vec![leaf(ConfRule::Other, "no"), arr]);
    assert_eq!(args, vec!["-a".to_string(), "x".to_string()]);
}

#[test]
fn variable_and_import_names() {
    let v = get_variable(&vec![leaf(ConfRule::Var, "first"), leaf(ConfRule::Var, "second"), string("x")]);
    assert_eq!(v.name, "second");
    assert_eq!(v.value, "");
    assert_eq!(get_imports(&vec![leaf(ConfRule::Key, "other.conf")]), "other.conf");
    assert_eq!(get_imports(&vec![]), "");
}

#[test]
fn params_of_an_object() {
    let ans = Answers::new();
    let obj = node(ConfRule::Object, "", "", vec![pair("k", "v"), pair("k2", "")]);
    match get_params(&vec![obj], &ans) {
        Ok(ParamsResult::Params(m)) => {
            assert_eq!(m.len(), 2);
            assert_eq!(m.get(&"k".to_string()).unwrap(), "v");
            assert_eq!(m.get(&"k2".to_string()).unwrap(), "");
        },
        other => panic!("unexpected {:?}", other),
    }
}

#[test]
fn params_errors() {
    let ans = Answers::new();
    let empty_key = node(ConfRule::Object, "", "", vec![pair("", "v")]);
    match get_params(&vec![empty_key], &ans) {
        Err(Stop::Fatal(m)) => assert_eq!(m, "Empty key in HashMap"),
        other => panic!("unexpected {:?}", other),
    }
    let empty_value = node(ConfRule::Object, "", "", vec![pair("k", "")]);
    match get_params(&vec![empty_value], &ans) {
        Err(Stop::Fatal(m)) => assert_eq!(m, "Empty value in HashMap"),
        other => panic!("unexpected {:?}", other),
    }
    match get_params(&vec![], &ans) {
        Err(Stop::Fatal(m)) => assert_eq!(m, "Failed to get params"),
        other => panic!("unexpected {:?}", other),
    }
}

#[test]
fn params_path_wins_over_object() {
    let mut ans = Answers::new();
    let ns = vec![
        node(ConfRule::Object, "", "", vec![pair("k", "v")]),
        leaf(ConfRule::Path, "path=\"~/p.json\""),
    ];
    match get_params(&ns, &ans) {
        Err(Stop::Need(Need::Expand(p))) => assert_eq!(p, "~/p.json"),
        other => panic!("unexpected {:?}", other),
    }
    ans.expanded.insert("~/p.json".to_string(), "/home/u/p.json".to_string());
    match get_params(&ns, &ans) {
        Ok(ParamsResult::Path(p)) => assert_eq!(p, "/home/u/p.json"),
        other => panic!("unexpected {:?}", other),
    }
}

#[test]
fn reading_asks_then_builds_a_script() {
    let script = node(
        ConfRule::Script,
        "",
        "",
        vec![
            leaf(ConfRule::Path, "path=\"~/s.sh\""),
            node(ConfRule::Arg, "", "", vec![node(ConfRule::Array, "", "", vec![string("-v")])]),
        ],
    );
    let f = file(vec![profile("work", vec![script]), leaf(ConfRule::Eoi, "")]);
    let mut ans = Answers::new();
    match interpret_conf("main.conf", &f, &ans) {
        Err(Stop::Need(Need::Expand(p))) => assert_eq!(p, "~/s.sh"),
        other => panic!("unexpected {:?}", other.is_ok()),
    }
    ans.expanded.insert("~/s.sh".to_string(), "/home/u/s.sh".to_string());
    let read = interpret_conf("main.conf", &f, &ans).unwrap();
    assert_eq!(read.path, "main.conf");
    assert_eq!(read.profiles.len(), 1);
    let p = read.profiles.get(&"work".to_string()).unwrap();
    assert_eq!(p.name, "work");
    let scripts = p.script.as_ref().unwrap();
    assert_eq!(scripts.len(), 1);
    assert_eq!(scripts[0].path.as_deref(), Some("/home/u/s.sh"));
    assert_eq!(scripts[0].arg.as_ref().unwrap(), &vec!["-v".to_string()]);
}

#[test]
fn unknown_top_node_stops_reading() {
    let f = file(vec![leaf(ConfRule::Other, "?")]);
    match interpret_conf("c", &f, &Answers::new()) {
        Err(Stop::Fatal(m)) => assert_eq!(m, "internal error: entered unreachable code"),
        other => panic!("unexpected {:?}", other.is_ok()),
    }
}

#[test]
fn imports_and_globals() {
    let f = file(vec![
        node(ConfRule::Import, "", "", vec![leaf(ConfRule::Key, "a.conf")]),
        variable("x"),
        node(ConfRule::Import, "", "", vec![leaf(ConfRule::Key, "b.conf")]),
        variable("y"),
        variable("x"),
        leaf(ConfRule::Eoi, ""),
    ]);
    let read = interpret_conf("c", &f, &Answers::new()).unwrap();
    assert_eq!(read.import.len(), 2);
    assert_eq!(read.import[0].path, "a.conf");
    assert_eq!(read.import[1].path, "b.conf");
    assert_eq!(read.global_variables.len(), 2);
    let x = read.global_variables.get(&"x".to_string()).unwrap();
    assert_eq!(x.name, "x");
    assert_eq!(x.value, "");
    assert!(read.profiles.is_empty());
}

#[test]
fn later_profile_of_a_name_wins() {
    let f = file(vec![
        profile("p", vec![variable("a")]),
        profile("q", vec![]),
        profile("p", vec![variable("b")]),
    ]);
    let read = interpret_conf("c", &f, &Answers::new()).unwrap();
    assert_eq!(read.profiles.len(), 2);
    let p = read.profiles.get(&"p".to_string()).unwrap();
    let vars = p.variables.as_ref().unwrap();
    assert!(vars.contains_key(&"b".to_string()));
    assert!(!vars.contains_key(&"a".to_string()));
    let q = read.profiles.get(&"q".to_string()).unwrap();
    assert!(q.variables.is_none());
}

#[test]
fn name_without_equals_stops_reading() {
    let f = file(vec![node(ConfRule::Profile, "", "", vec![leaf(ConfRule::Name, "name")])]);
    match interpret_conf("c", &f, &Answers::new()) {
        Err(Stop::Fatal(m)) => assert_eq!(m, "index out of bounds: the len is 1 but the index is 1"),
        other => panic!("unexpected {:?}", other.is_ok()),
    }
}

#[test]
fn exec_parameter_file_is_read_as_json() {
    let exec = node(
        ConfRule::Exec,
        "",
        "",
        vec![
            leaf(ConfRule::Cmd, "cmd=notify-send"),
            leaf(ConfRule::Path, "path=/bin/x"),
            node(ConfRule::Param, "", "", vec![leaf(ConfRule::Path, "path=~/p.json")]),
        ],
    );
    let f = file(vec![profile("p", vec![exec])]);
    let mut ans = Answers::new();
    ans.expanded.insert("~/p.json".to_string(), "/h/p.json".to_string());
    match interpret_conf("c", &f, &ans) {
        Err(Stop::Need(Need::JsonMap(p))) => assert_eq!(p, "/h/p.json"),
        other => panic!("unexpected {:?}", other.is_ok()),
    }
    let mut m = KeyedMap::new();
    m.insert("k".to_string(), "v".to_string());
    ans.json_maps.insert("/h/p.json".to_string(), m);
    let read = interpret_conf("c", &f, &ans).unwrap();
    let e = &read.profiles.get(&"p".to_string()).unwrap().execs.as_ref().unwrap()[0];
    assert_eq!(e.cmd.as_deref(), Some("notify-send"));
    assert_eq!(e.path.as_deref(), Some("/bin/x"));
    let params = e.params.as_ref().unwrap();
    assert_eq!(params.len(), 1);
    assert_eq!(params[0].get(&"k".to_string()).unwrap(), "v");
}

#[test]
fn colour_file_is_read_by_extension() {
    let colour = node(ConfRule::Color, "", "", vec![leaf(ConfRule::Path, "path=/c.toml")]);
    let f = file(vec![profile("p", vec![colour])]);
    let mut ans = Answers::new();
    ans.expanded.insert("/c.toml".to_string(), "/c.toml".to_string());
    match interpret_conf("c", &f, &ans) {
        Err(Stop::Need(Need::FileMap(p))) => assert_eq!(p, "/c.toml"),
        other => panic!("unexpected {:?}", other.is_ok()),
    }
    let mut m = KeyedMap::new();
    m.insert("bg".to_string(), "#000".to_string());
    ans.file_maps.insert("/c.toml".to_string(), m);
    let read = interpret_conf("c", &f, &ans).unwrap();
    let c = read.profiles.get(&"p".to_string()).unwrap().color.as_ref().unwrap();
    assert_eq!(c.get("bg"), Some("#000".to_string()));
}

#[test]
fn wallpaper_is_checked_against_its_probe() {
    let wp = node(
        ConfRule::Wallpaper,
        "",
        "",
        vec![
            leaf(ConfRule::Path, "path=\"~/pics/a.png\""),
            node(ConfRule::Engine, "", "", vec![string("swww")]),
        ],
    );
    let f = file(vec![profile("p", vec![wp])]);
    let mut ans = Answers::new();
    match interpret_conf("c", &f, &ans) {
        Err(Stop::Need(Need::Expand(p))) => assert_eq!(p, "~/pics/a.png"),
        other => panic!("unexpected {:?}", other.is_ok()),
    }
    ans.expanded.insert("~/pics/a.png".to_string(), "/home/u/pics/a.png".to_string());
    match interpret_conf("c", &f, &ans) {
        Err(Stop::Need(Need::Probe(p))) => assert_eq!(p, "/home/u/pics/a.png"),
        other => panic!("unexpected {:?}", other.is_ok()),
    }
    ans.probes.insert("/home/u/pics/a.png".to_string(), file_probe());
    let read = interpret_conf("c", &f, &ans).unwrap();
    match read.profiles.get(&"p".to_string()).unwrap().wallpaper.as_ref().unwrap() {
        Paper::Wallpaper(w) => {
            assert_eq!(w.name, "a");
            assert_eq!(w.path, "/home/u/pics/a.png");
            assert_eq!(w.config.engine, "swww");
        },
        other => panic!("unexpected {:?}", other),
    }
}

#[test]
fn wallpaper_config_must_not_be_empty() {
    let wp = node(ConfRule::Wallpaper, "", "", vec![leaf(ConfRule::Config, "config")]);
    let f = file(vec![profile("p", vec![wp])]);
    match interpret_conf("c", &f, &Answers::new()) {
        Err(Stop::Fatal(m)) => assert_eq!(m, "config is empty"),
        other => panic!("unexpected {:?}", other.is_ok()),
    }
}
