use wayland_utils::keyed::KeyedMap;
use wayland_utils::parser::{Profile, Wpaper};
use wayland_utils::wallpaper::{
    is_image_extension, DirProbe, EntryInfo, ExtensionInfo, Group, WalkItem,
};
use wayland_utils::wpaper::{check_paper, try_check_paper, Paper, PaperProbe};

fn entry(path: &str, is_file: bool, ext: Option<&str>) -> WalkItem {
    let name = path.rsplit('/').next().unwrap();
    WalkItem::Entry(EntryInfo {
        path: path.to_string(),
        is_file,
        is_dir: !is_file,
        extension: match ext {
            Some(e) => ExtensionInfo::Text(e.to_string()),
            None => ExtensionInfo::Missing,
        },
        prefix: Some(name.split('.').next().unwrap().to_string()),
        expanded: Some(path.to_string()),
    })
}

fn empty_dir(exists: bool, is_dir: bool) -> DirProbe {
    DirProbe { exists, is_dir, items: vec![] }
}

fn file_probe() -> PaperProbe {
    PaperProbe { exists: true, is_dir: false, is_file: true, items: vec![], group: empty_dir(true, false) }
}

fn described(path: Option<&str>) -> Wpaper {
    let mut w = Wpaper::new();
    if let Some(p) = path {
        w.set_path(p.to_string());
    }
    w
}

#[test]
fn image_extensions() {
    assert!(is_image_extension("jpg"));
    assert!(is_image_extension("webp"));
    assert!(is_image_extension(".gif"));
    assert!(!is_image_extension("gif"));
    assert!(!is_image_extension("txt"));
}

#[test]
fn fill_without_path_does_nothing() {
    let mut g = Group::new("g".to_string());
    assert!(g.fill_wallpaper(&empty_dir(false, false)).is_ok());
    assert!(g.list.is_empty());
}

#[test]
fn fill_with_path_always_fails() {
    let mut g = Group::new("g".to_string());
    g.set_path("/w".to_string());
    assert_eq!(g.fill_wallpaper(&empty_dir(false, false)).unwrap_err(), "Path not found");
    assert_eq!(g.fill_wallpaper(&empty_dir(true, false)).unwrap_err(), "Not a directory");
    let probe = DirProbe {
        exists: true,
        is_dir: true,
        items: vec![
            entry("/w", false, None),
            entry("/w/a.png", true, Some("png")),
            entry("/w/notes.txt", true, Some("txt")),
            WalkItem::Failed("denied".to_string()),
            entry("/w/b.jpg", true, Some("jpg")),
        ],
    };
    assert_eq!(g.fill_wallpaper(&probe).unwrap_err(), "Path not found");
    assert_eq!(g.list.len(), 2);
    assert_eq!(g.list[0].name, "a");
    assert_eq!(g.list[1].path, "/w/b.jpg");
}

#[test]
fn sources_other_than_descriptions_pass_unchanged() {
    let g = Group::new("g".to_string());
    match check_paper(Paper::Group(g), &file_probe()).unwrap() {
        Paper::Group(g) => assert_eq!(g.name, "g"),
        _ => panic!("group expected"),
    }
}

#[test]
fn image_file_becomes_wallpaper() {
    let mut w = described(Some("/w/sunset.beach.png"));
    let mut cfg = KeyedMap::new();
    cfg.insert("time".to_string(), "30".to_string());
    cfg.insert("theme".to_string(), "dark".to_string());
    cfg.insert("mode".to_string(), "fill".to_string());
    w.set_config(cfg);
    w.set_engine("hyprpaper".to_string());
    match check_paper(Paper::Wpaper(w), &file_probe()).unwrap() {
        Paper::Wallpaper(wp) => {
            assert_eq!(wp.name, "sunset");
            assert_eq!(wp.path, "/w/sunset.beach.png");
            assert_eq!(wp.config.time.as_deref(), Some("30"));
            assert_eq!(wp.config.theme.as_ref().unwrap().name, "dark");
            assert_eq!(wp.config.engine, "hyprpaper");
        }
        _ => panic!("wallpaper expected"),
    }
}

#[test]
fn description_errors() {
    let r = check_paper(Paper::Wpaper(described(None)), &file_probe());
    assert_eq!(r.unwrap_err(), "no path of wallpaper");
    let missing = PaperProbe { exists: false, ..file_probe() };
    let r = check_paper(Paper::Wpaper(described(Some("/w/a.png"))), &missing);
    assert_eq!(r.unwrap_err(), "path of Wallpaper not found");
    let r = check_paper(Paper::Wpaper(described(Some("/w/a.txt"))), &file_probe());
    assert_eq!(r.unwrap_err(), "extension of wallpaper not supported");
    let r = check_paper(Paper::Wpaper(described(Some("/w/readme"))), &file_probe());
    assert_eq!(r.unwrap_err(), "wallpaper has no extension");
    let other = PaperProbe { is_file: false, ..file_probe() };
    let r = check_paper(Paper::Wpaper(described(Some("/w/pipe"))), &other);
    assert_eq!(r.unwrap_err(), "path of wallpaper not found");
}

#[test]
fn directories() {
    // A directory with an image: the group cannot be filled.
    let probe = PaperProbe {
        exists: true,
        is_dir: true,
        is_file: false,
        items: vec![entry("/w", false, None), entry("/w/a.png", true, Some("png"))],
        group: DirProbe { exists: true, is_dir: true, items: vec![] },
    };
    let r = check_paper(Paper::Wpaper(described(Some("/w"))), &probe);
    assert_eq!(r.unwrap_err(), "Path not found");

    // A walk that fails.
    let probe = PaperProbe {
        items: vec![WalkItem::Failed("denied".to_string())],
        ..PaperProbe { exists: true, is_dir: true, is_file: false, items: vec![], group: empty_dir(true, true) }
    };
    assert_eq!(check_paper(Paper::Wpaper(described(Some("/w"))), &probe).unwrap_err(), "denied");

    // Nothing found: an empty list with the description's engine.
    let probe = PaperProbe { exists: true, is_dir: true, is_file: false, items: vec![], group: empty_dir(true, true) };
    let mut w = described(Some("/w/.hidden"));
    w.set_engine("swaybg".to_string());
    match check_paper(Paper::Wpaper(w), &probe).unwrap() {
        Paper::WallpaperList(l) => {
            assert!(l.list.is_empty());
            assert_eq!(l.config.engine, "swaybg");
        }
        _ => panic!("list expected"),
    }

    // A subdirectory before any image: checking cannot go on.
    let probe = PaperProbe {
        exists: true,
        is_dir: true,
        is_file: false,
        items: vec![entry("/w", false, None)],
        group: empty_dir(true, true),
    };
    assert!(try_check_paper(Paper::Wpaper(described(Some("/w"))), &probe).is_none());
}

#[test]
fn profile_wallpaper_is_checked() {
    let mut p = Profile::new();
    p.set_wallpaper(described(Some("/w/a.png")), &file_probe());
    match p.wallpaper.unwrap() {
        Paper::Wallpaper(w) => assert_eq!(w.name, "a"),
        _ => panic!("wallpaper expected"),
    }
}

#[test]
fn a_checked_description_is_settled() {
    let mut w = Wpaper::new();
    w.set_path("/p/sun.set.png".to_string());
    let first = check_paper(Paper::Wpaper(w), &file_probe()).unwrap();
    let name = match &first {
        Paper::Wallpaper(x) => x.name.clone(),
        other => panic!("unexpected {:?}", other),
    };
    assert_eq!(name, "sun");
    let dir = PaperProbe { exists: true, is_dir: true, is_file: false, items: vec![], group: empty_dir(true, true) };
    match check_paper(first, &dir).unwrap() {
        Paper::Wallpaper(x) => assert_eq!(x.name, "sun"),
        other => panic!("unexpected {:?}", other),
    }
}
