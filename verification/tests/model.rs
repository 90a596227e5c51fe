use wayland_utils::store::Stores;
use wayland_utils::conf::{
    FileChoice, cache_dir, config_dir, default_config_file, default_log_file, initialize_config_file,
    initialize_log_file, push_path, Conf, NAME,
};
use wayland_utils::exec::{exec_target, mode_is_executable, require_executable, Executable};
use wayland_utils::keyed::KeyedMap;
use wayland_utils::parser::{
    Color, Exec, File, Import, Imports, Profile, Script, StringMap, Template, Variable, Wpaper,
};
use wayland_utils::seqs::{all_unique, dedup_vec, position_of};
use wayland_utils::text::{contains_char, eq_str, first_field_of, second_field_of, trim_char_of};
use wayland_utils::theme::Theme;
use wayland_utils::theme_config;
use wayland_utils::util::{map_format, MapFormat};
use wayland_utils::wallpaper::{
    get_current_group, get_current_wallpaper, ActiveState, Group, Wallpaper, WallpaperConfig,
    WallpaperList, WallpaperListConfig,
};

fn smap(pairs: &[(&str, &str)]) -> StringMap {
    let mut m = KeyedMap::new();
    for (k, v) in pairs {
        m.insert(k.to_string(), v.to_string());
    }
    m
}

#[test]
fn keyed_insert_replaces_in_place() {
    let mut m = smap(&[("a", "1"), ("b", "2")]);
    m.insert("a".to_string(), "3".to_string());
    assert_eq!(m.len(), 2);
    assert_eq!(m.key_at(0), "a");
    assert_eq!(m.value_at(0), "3");
    assert_eq!(m.get(&"b".to_string()).map(|s| s.as_str()), Some("2"));
    assert!(m.get(&"c".to_string()).is_none());
    assert!(m.contains_key(&"a".to_string()));
    assert!(!m.is_empty());
    assert!(KeyedMap::<String>::new().is_empty());
}

#[test]
fn keyed_extend_prefers_new_values() {
    let mut m = smap(&[("a", "1"), ("b", "2")]);
    m.extend(smap(&[("b", "9"), ("c", "3")]));
    assert_eq!(m.len(), 3);
    assert_eq!(m.get(&"b".to_string()).unwrap(), "9");
    assert_eq!(m.get(&"c".to_string()).unwrap(), "3");
    let c = m.copy();
    assert_eq!(c.len(), 3);
    assert_eq!(c.key_at(2), "c");
}

#[test]
fn text_fields() {
    assert_eq!(second_field_of("path=abc", '=').unwrap(), "abc");
    assert_eq!(second_field_of("a=b=c", '=').unwrap(), "b");
    assert_eq!(second_field_of("a=", '=').unwrap(), "");
    assert!(second_field_of("abc", '=').is_none());
    assert_eq!(first_field_of("photo.tar.gz", '.'), "photo");
    assert_eq!(first_field_of("photo", '.'), "photo");
    assert_eq!(trim_char_of("\"\"x\"y\"", '"'), "x\"y");
    assert_eq!(trim_char_of("\"\"\"", '"'), "");
    assert!(contains_char("a\"b", '"'));
    assert!(!contains_char("ab", '"'));
    assert!(eq_str("jpg", "jpg"));
    assert!(!eq_str("jpg", "jpeg"));
}

#[test]
fn mode_digits_decide_executable() {
    // 0o100755 written in decimal is 33261: digits 3, 3, 2.
    assert!(!mode_is_executable(33261));
    assert!(mode_is_executable(1755));
    assert!(mode_is_executable(5));
    assert!(mode_is_executable(17));
    assert!(mode_is_executable(427));
    assert!(!mode_is_executable(0));
    assert!(!mode_is_executable(420));
    assert!(!mode_is_executable(4447));
}

#[test]
fn exec_targets() {
    let mut s = Script::new();
    assert!(exec_target(&Executable::Script(Script::new())).is_none());
    s.set_path("/bin/run".to_string());
    s.add_args(vec!["-x".to_string()]);
    let l = exec_target(&Executable::Script(s)).unwrap();
    assert_eq!(l.program, "/bin/run");
    assert_eq!(l.args, vec!["-x".to_string()]);
    assert!(l.check_executable);

    let mut e = Exec::new();
    e.set_cmd("ls".to_string());
    let l = exec_target(&Executable::Exec(e)).unwrap();
    assert_eq!(l.program, "ls");
    assert!(l.args.is_empty());
    assert!(!l.check_executable);
    assert!(require_executable(&l, false).is_ok());

    let mut e = Exec::new();
    e.set_cmd("ls".to_string());
    e.set_path("/usr/bin/ls".to_string());
    let l = exec_target(&Executable::Exec(e)).unwrap();
    assert_eq!(l.program, "/usr/bin/ls");
    assert_eq!(
        require_executable(&l, false).unwrap_err(),
        "Could not execute command: /usr/bin/ls , path is not a executable"
    );
    assert!(require_executable(&l, true).is_ok());

    assert!(exec_target(&Executable::Command("ls".to_string())).is_none());
    assert!(exec_target(&Executable::Shell(Exec::new())).is_none());
    assert!(exec_target(&Executable::Nothing).is_none());
}

#[test]
fn conf_paths() {
    assert_eq!(NAME, "wayland_utils");
    assert_eq!(cache_dir("/home/u/.cache"), "/home/u/.cache/wayland_utils");
    assert_eq!(config_dir("/home/u/.config/"), "/home/u/.config/wayland_utils");
    assert_eq!(
        default_log_file("/home/u/.cache"),
        "/home/u/.cache/wayland_utils/wayland_utils.log"
    );
    assert_eq!(
        default_config_file("/etc"),
        "/etc/wayland_utils/config.toml"
    );
    assert_eq!(push_path("/a", "/b"), "/b");
    assert_eq!(push_path("", "b"), "b");
    assert_eq!(push_path("a", ""), "a/");
    assert_eq!(initialize_log_file(Some("/tmp/x.log".to_string()), "/c"), "/tmp/x.log");
    assert_eq!(initialize_log_file(None, "/c"), "/c/wayland_utils/wayland_utils.log");
    assert_eq!(initialize_config_file(None, "/c"), "/c/wayland_utils/config.toml");
    let _ = Conf::new();
}

#[test]
fn map_formats() {
    assert_eq!(map_format("/a/colors.toml", true), Some(Ok(MapFormat::Toml)));
    assert_eq!(map_format("/a/colors.json", true), Some(Ok(MapFormat::Json)));
    assert_eq!(map_format("/a/colors.ron", true), Some(Ok(MapFormat::Ron)));
    assert_eq!(
        map_format("/a/colors.yaml", true),
        Some(Err("Unsupported file extension | yaml".to_string()))
    );
    assert_eq!(map_format("/a/dir", false), Some(Err("/a/dir is not a file".to_string())));
    assert_eq!(map_format("/a/colors", true), None);
}

#[test]
fn color_maps() {
    let mut c = Color::new();
    assert!(c.get("bg").is_none());
    c.add("bg".to_string(), "#000".to_string());
    assert_eq!(c.get("bg").unwrap(), "#000");
    let mut d = Color::make_new("fg".to_string(), "#fff".to_string());
    d.merge(Color(smap(&[("fg", "#eee"), ("bg", "#111")])));
    assert_eq!(d.get("fg").unwrap(), "#eee");
    assert_eq!(d.get("bg").unwrap(), "#111");
    assert_eq!(d.get_all().len(), 2);
}

#[test]
fn params_dropped_once_arguments_are_set() {
    let mut s = Script::new();
    s.add_arg("a".to_string());
    s.add_param(smap(&[("k", "v")]));
    assert!(s.params.is_none());
    let mut t = Template::new();
    t.add_param(smap(&[("k", "v")]));
    t.add_arg("a".to_string());
    t.add_param(smap(&[("k2", "v2")]));
    assert_eq!(t.params.as_ref().unwrap().len(), 2);
    assert_eq!(t.arg.as_ref().unwrap().len(), 1);
    let mut e = Exec::new();
    e.add_args(vec!["x".to_string()]);
    e.add_param(smap(&[("k", "v")]));
    assert!(e.params.is_none());
    t.set_out("out".to_string());
    t.set_path("in".to_string());
    t.add_color(smap(&[("a", "b")]));
    assert_eq!(t.out, "out");
    assert_eq!(t.path, "in");
    assert!(t.color.is_some());
}

#[test]
fn profile_building() {
    let mut p = Profile::new();
    p.set_name("work".to_string());
    p.add_variable(Variable::new("$a".to_string(), "1".to_string()));
    p.add_variable(Variable::new("$a".to_string(), "2".to_string()));
    p.add_exec(Exec::new());
    p.add_exec(Exec::new());
    p.add_script(Script::new());
    p.add_template(Template::new());
    p.add_color(smap(&[("bg", "#000")]));
    assert_eq!(p.name, "work");
    let vars = p.variables.as_ref().unwrap();
    assert_eq!(vars.len(), 1);
    assert_eq!(vars.get(&"$a".to_string()).unwrap().value, "2");
    assert_eq!(p.execs.as_ref().unwrap().len(), 2);
    assert_eq!(p.script.as_ref().unwrap().len(), 1);
    assert_eq!(p.template.as_ref().unwrap().len(), 1);
    assert!(p.color.is_some());
    assert!(p.wallpaper.is_none());
}

#[test]
fn file_merging() {
    let mut f = File::new();
    f.add_filename("a.conf".to_string());
    let mut p1 = Profile::new();
    p1.set_name("one".to_string());
    f.add_profile(p1);
    let mut more = KeyedMap::new();
    let mut p2 = Profile::new();
    p2.set_name("two".to_string());
    more.insert("two".to_string(), p2);
    f.add_profiles(more);
    assert_eq!(f.profiles.len(), 2);
    f.add_global_variable(Variable::new("$x".to_string(), String::new()));
    let mut gv = KeyedMap::new();
    gv.insert("$x".to_string(), Variable::new("$x".to_string(), "v".to_string()));
    f.add_global_variables(gv);
    assert_eq!(f.global_variables.len(), 1);
    assert_eq!(f.global_variables.get(&"$x".to_string()).unwrap().value, "v");
    f.add_import(Import::new("b.conf".to_string()));
    f.add_imports(vec![Import::new("c.conf".to_string())]);
    assert_eq!(f.import.len(), 2);
    assert_eq!(f.import[1].path, "c.conf");
    assert_eq!(f.path, "a.conf");

    let mut i = Imports::new();
    i.add("x".to_string());
    i.set_filename("f".to_string());
    assert_eq!(i.import.len(), 1);
    assert_eq!(i.file, "f");
}

#[test]
fn wpaper_setters() {
    let mut w = Wpaper::new();
    w.set_path("/p".to_string());
    w.set_engine("swww".to_string());
    w.set_wallpaper(vec!["a".to_string()]);
    w.set_config(smap(&[("time", "5")]));
    assert_eq!(w.path.as_deref(), Some("/p"));
    assert_eq!(w.engine.as_deref(), Some("swww"));
    assert_eq!(w.wallpaper.as_ref().unwrap().len(), 1);
    assert!(w.config.is_some());
}

#[test]
fn wallpaper_defaults_and_setters() {
    let c = WallpaperConfig::new();
    assert_eq!(c.engine, "swww");
    assert!(c.theme.is_none() && c.time.is_none());
    let mut c = c;
    c.set_time("10".to_string());
    c.set_engine("hyprpaper".to_string());
    assert_eq!(c.time.as_deref(), Some("10"));
    let mut w = Wallpaper::new("cat".to_string(), "/w/cat.png".to_string());
    assert_eq!(w.config.engine, "swww");
    w.set_config(c);
    assert_eq!(w.config.engine, "hyprpaper");
    let mut g = Group::new("g".to_string());
    assert!(g.path.is_none() && g.list.is_empty());
    g.set_path("/w".to_string());
    g.set_config(WallpaperConfig::new());
    assert_eq!(g.path.as_deref(), Some("/w"));
    let mut l = WallpaperList::new();
    l.add_group(g);
    assert!(l.list.is_empty());
    l.set_config(WallpaperConfig::new());
    let mut lc = WallpaperListConfig::new();
    assert_eq!(lc.engine, "swww");
    lc.set_engine("x".to_string());
    assert_eq!(lc.engine, "x");
    let t = theme_config::Theme::new("dark".to_string(), "dark.toml".to_string());
    assert!(t.applications.is_none());
    let th = Theme::named("night".to_string());
    assert_eq!(th.name, "night");
}

#[test]
fn group_for_path_names_by_last_component() {
    let l = WallpaperList::new();
    let g = l.group_for_path("/home/u/walls/".to_string()).unwrap();
    assert_eq!(g.name, "walls");
    assert_eq!(g.path.as_deref(), Some("/home/u/walls/"));
    assert!(l.group_for_path("/".to_string()).is_none());
}

fn wp(name: &str) -> Wallpaper {
    Wallpaper::new(name.to_string(), format!("/w/{name}.png"))
}

#[test]
fn dedup_and_uniqueness() {
    let v = vec![wp("a"), wp("a"), wp("b"), wp("a")];
    assert!(!all_unique(&v));
    let d = dedup_vec(&v);
    assert_eq!(d.len(), 3);
    assert_eq!(d[1].name, "b");
    assert_eq!(d[2].name, "a");
    assert!(all_unique(&vec![wp("a"), wp("b")]));
    assert_eq!(position_of(&v, &wp("b")), Some(2));
    assert_eq!(position_of(&v, &wp("c")), None);
}

#[test]
fn selecting_a_group_and_a_wallpaper() {
    let mut st = ActiveState::new();
    assert_eq!(get_current_wallpaper(&st).name, "default.png");
    assert_eq!(get_current_group(&st).name, "default_group");
    let g1 = Group::new("one".to_string());
    let g2 = Group::new("two".to_string());
    st.list.list = vec![g1.clone(), g1.clone(), g2.clone()];
    let mut g3 = Group::new("three".to_string());
    g3.list.push(wp("x"));
    g3.set_group(&mut st);
    assert_eq!(st.list.list.len(), 2);
    assert_eq!(st.backup_list.list.len(), 2);
    assert_eq!(get_current_group(&st).name, "three");
    assert_eq!(st.backup_group.name, "three");

    let mut st = ActiveState::new();
    st.group.list = vec![wp("a"), wp("a")];
    wp("b").activate(&mut st);
    assert_eq!(get_current_wallpaper(&st).name, "b");
    assert_eq!(st.group.list.len(), 1);
    assert_eq!(st.backup_group.list.len(), 1);
}

#[test]
fn choosing_twice_is_choosing_once() {
    let mut st = ActiveState::new();
    st.list.list = vec![Group::new("a".to_string()), Group::new("a".to_string()), Group::new("b".to_string()), Group::new("a".to_string())];
    let g = Group::new("c".to_string());
    g.set_group(&mut st);
    let names: Vec<String> = st.list.list.iter().map(|x| x.name.clone()).collect();
    assert_eq!(names, vec!["a", "b", "a"]);
    g.set_group(&mut st);
    let again: Vec<String> = st.list.list.iter().map(|x| x.name.clone()).collect();
    assert_eq!(again, names);
    assert_eq!(st.group.name, "c");

    let mut st = ActiveState::new();
    st.group.list = vec![wp("a"), wp("b"), wp("b"), wp("a")];
    wp("c").activate(&mut st);
    assert_eq!(st.group.list.len(), 3);
    wp("c").activate(&mut st);
    assert_eq!(st.group.list.len(), 3);
    assert_eq!(st.group.list[2].name, "a");
    assert_eq!(get_current_wallpaper(&st).name, "c");
}

#[test]
fn choosing_a_group_hands_back_its_first_wallpaper() {
    let mut st = ActiveState::new();
    let mut g = Group::new("g".to_string());
    g.list.push(wp("first"));
    g.list.push(wp("second"));
    let first = g.set_group(&mut st).unwrap();
    assert_eq!(first.name, "first");
    let empty = Group::new("e".to_string());
    assert!(empty.set_group(&mut st).is_none());
    assert_eq!(get_current_group(&st).name, "e");
}

#[test]
fn current_wallpaper_is_the_last_made_current() {
    let mut st = ActiveState::new();
    st.group.list = vec![wp("a"), wp("a")];
    wp("b").make_current(&mut st);
    assert_eq!(get_current_wallpaper(&st).name, "b");
    assert_eq!(st.group.list.len(), 2);
    wp("b").settle_active_group(&mut st);
    assert_eq!(get_current_wallpaper(&st).name, "b");
    assert_eq!(st.group.list.len(), 1);
    wp("a").make_current(&mut st);
    assert_eq!(get_current_wallpaper(&st).name, "a");
}

#[test]
fn first_file_choice_wins() {
    let mut c = FileChoice::new();
    assert!(c.set_log_file("/a.log".to_string()).is_ok());
    assert_eq!(c.set_log_file("/b.log".to_string()).unwrap_err(), "/b.log");
    assert_eq!(c.log_file.as_deref(), Some("/a.log"));
    assert!(c.config_file.is_none());
    assert!(c.set_config_file("/c.toml".to_string()).is_ok());
    assert!(c.set_config_file("/d.toml".to_string()).is_err());
    assert_eq!(c.config_file.as_deref(), Some("/c.toml"));
}

fn file_with(path: &str, profile: &str, var: &str, import: &str) -> File {
    let mut f = File::new();
    f.add_filename(path.to_string());
    let mut p = Profile::new();
    p.set_name(profile.to_string());
    f.add_profile(p);
    f.add_global_variable(Variable::new(var.to_string(), String::new()));
    f.add_import(Import::new(import.to_string()));
    f
}

#[test]
fn recording_the_same_file_twice() {
    let mut s = Stores::new();
    s.record(file_with("c.conf", "p", "x", "a.conf"));
    s.record(file_with("c.conf", "p", "x", "a.conf"));
    assert_eq!(s.profiles.len(), 1);
    assert_eq!(s.globals.len(), 1);
    assert_eq!(s.imports.len(), 2);
    assert_eq!(s.imports[1].file, "c.conf");
    assert_eq!(s.imports[1].import[0].path, "a.conf");
    s.record(file_with("d.conf", "q", "y", "b.conf"));
    assert_eq!(s.profiles.len(), 1);
    assert!(s.profiles.contains_key(&"q".to_string()));
    assert_eq!(s.globals.len(), 2);
    assert_eq!(s.imports.len(), 3);
}
