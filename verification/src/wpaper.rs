//! Checking a wallpaper description against the file system: a path to an
//! image file becomes a wallpaper, a path to a directory a group or a list
//! of groups, with the description's settings applied.

use vstd::prelude::*;
use vstd::string::*;
use crate::parser::{StringMap, Wpaper};
use crate::pathname::{camino_file_name, extension_of, extension_of_name, file_name_of};
use crate::text::{eq_str, first_field, first_field_of, is_err_with};
use crate::theme::Theme;
use crate::wallpaper::{
    DirProbe, ExtensionInfo, Group, GroupView, WalkItem, Wallpaper, WallpaperConfig,
    WallpaperConfigView, WallpaperList, WallpaperListView, WallpaperView, default_config, fill_item_ok,
    image_extension, is_image_extension,
};

verus! {

/// The model of a wallpaper description; the settings are in the order in
/// which they were first set.
pub struct WpaperView {
    pub engine: Option<Seq<char>>,
    pub path: Option<Seq<char>>,
    pub wallpaper: Option<Seq<Seq<char>>>,
    pub config: Option<Seq<(Seq<char>, Seq<char>)>>,
}

impl View for Wpaper {
    type V = WpaperView;

    open spec fn view(&self) -> WpaperView {
        WpaperView {
            engine: self.engine.deep_view(),
            path: self.path.deep_view(),
            wallpaper: self.wallpaper.deep_view(),
            config: match self.config {
                Some(m) => Some(m.pairs()),
                None => None,
            },
        }
    }
}

/// A wallpaper source: a single wallpaper, an unchecked description, a group
/// or a list of groups.
#[derive(Debug)]
pub enum Paper {
    Wallpaper(Wallpaper),
    Wpaper(Wpaper),
    Group(Group),
    WallpaperList(WallpaperList),
}

/// The model of a wallpaper source.
pub enum PaperView {
    Wallpaper(WallpaperView),
    Wpaper(WpaperView),
    Group(GroupView),
    WallpaperList(WallpaperListView),
}

impl View for Paper {
    type V = PaperView;

    open spec fn view(&self) -> PaperView {
        match self {
            Paper::Wallpaper(w) => PaperView::Wallpaper(w@),
            Paper::Wpaper(w) => PaperView::Wpaper(w@),
            Paper::Group(g) => PaperView::Group(g@),
            Paper::WallpaperList(l) => PaperView::WallpaperList(l@),
        }
    }
}

/// The model of a checking result.
pub open spec fn result_view(r: Result<Paper, String>) -> Result<PaperView, Seq<char>> {
    match r {
        Ok(p) => Ok(p@),
        Err(m) => Err(m@),
    }
}

/// What the file system tells of the path of a wallpaper description: the
/// walk under it (hidden entries left out), and the walk that filling a
/// group from it sees.
#[derive(Debug)]
pub struct PaperProbe {
    pub exists: bool,
    pub is_dir: bool,
    pub is_file: bool,
    pub items: Vec<WalkItem>,
    pub group: DirProbe,
}

impl View for PaperProbe {
    type V = PaperProbe;

    open spec fn view(&self) -> PaperProbe {
        *self
    }
}

/// The effect of one setting of a description on a configuration: `time`
/// and `timer` set the time, `engine` the engine, `theme` the theme; any
/// other key has none.
pub open spec fn apply_setting(c: WallpaperConfigView, k: Seq<char>, v: Seq<char>) -> WallpaperConfigView {
    if k == "time"@ || k == "timer"@ {
        WallpaperConfigView { time: Some(v), ..c }
    } else if k == "engine"@ {
        WallpaperConfigView { engine: v, ..c }
    } else if k == "theme"@ {
        WallpaperConfigView { theme: Some(v), ..c }
    } else {
        c
    }
}

/// The effect of settings applied in order.
pub open spec fn apply_settings(c: WallpaperConfigView, s: Seq<(Seq<char>, Seq<char>)>) -> WallpaperConfigView
    decreases s.len(),
{
    if s.len() == 0 {
        c
    } else {
        apply_setting(apply_settings(c, s.drop_last()), s.last().0, s.last().1)
    }
}

/// A configuration once a description's settings, then its engine, are
/// applied to it.
pub open spec fn configured(c: WallpaperConfigView, w: WpaperView) -> WallpaperConfigView {
    let c1 = match w.config {
        Some(s) => apply_settings(c, s),
        None => c,
    };
    match w.engine {
        Some(e) => WallpaperConfigView { engine: e, ..c1 },
        None => c1,
    }
}

/// The outcome of looking through a walk for an image file.
pub enum Scan {
    Panics,
    Fails(Seq<char>),
    Done(bool),
}

/// Looks through a walk for an image file: stops at the first one, at a
/// failure of the walk, or at a file whose extension is no text.
pub open spec fn first_scan(items: Seq<WalkItem>) -> Scan
    decreases items.len(),
{
    if items.len() == 0 {
        Scan::Done(false)
    } else {
        match items[0] {
            WalkItem::Failed(m) => Scan::Fails(m@),
            WalkItem::Entry(e) => if e.is_file {
                match e.extension {
                    ExtensionInfo::Missing => Scan::Panics,
                    ExtensionInfo::NotUtf8 => Scan::Fails("Invalid file extension"@),
                    ExtensionInfo::Text(x) => if image_extension(x@) {
                        Scan::Done(true)
                    } else {
                        first_scan(items.skip(1))
                    },
                }
            } else {
                first_scan(items.skip(1))
            },
        }
    }
}

/// The outcome of the second pass through a walk.
pub enum Sweep {
    Panics,
    Fails(Seq<char>),
    Image,
    Finished,
}

/// The second pass through a walk: it stops at a failure, at the first
/// image file, or at a directory when the first pass found no image (adding
/// such a directory as a group cannot succeed).
pub open spec fn second_sweep(items: Seq<WalkItem>, file_check: bool) -> Sweep
    decreases items.len(),
{
    if items.len() == 0 {
        Sweep::Finished
    } else {
        match items[0] {
            WalkItem::Failed(m) => Sweep::Fails(m@),
            WalkItem::Entry(e) => if e.is_file {
                match e.extension {
                    ExtensionInfo::Missing => Sweep::Panics,
                    ExtensionInfo::NotUtf8 => Sweep::Fails("Invalid file extension"@),
                    ExtensionInfo::Text(x) => if image_extension(x@) {
                        Sweep::Image
                    } else if e.is_dir && !file_check {
                        Sweep::Panics
                    } else {
                        second_sweep(items.skip(1), file_check)
                    },
                }
            } else if e.is_dir && !file_check {
                Sweep::Panics
            } else {
                second_sweep(items.skip(1), file_check)
            },
        }
    }
}

/// The error that filling a group with a path gives, or `None` when filling
/// it panics.
pub open spec fn fill_outcome(g: DirProbe) -> Option<Seq<char>> {
    if !g.exists {
        Some("Path not found"@)
    } else if !g.is_dir {
        Some("Not a directory"@)
    } else if forall|i: int| 0 <= i < g.items@.len() ==> fill_item_ok(#[trigger] g.items@[i]) {
        Some("Path not found"@)
    } else {
        None
    }
}

/// The result of checking a description against the file system, or `None`
/// where checking panics.
pub open spec fn check_wpaper(w: WpaperView, probe: PaperProbe) -> Option<Result<PaperView, Seq<char>>> {
    match w.path {
        None => Some(Err("no path of wallpaper"@)),
        Some(p) => if !probe.exists {
            Some(Err("path of Wallpaper not found"@))
        } else if probe.is_dir {
            match first_scan(probe.items@) {
                Scan::Panics => None,
                Scan::Fails(m) => Some(Err(m)),
                Scan::Done(file_check) => match second_sweep(probe.items@, file_check) {
                    Sweep::Panics => None,
                    Sweep::Fails(m) => Some(Err(m)),
                    Sweep::Image => if camino_file_name(p) is None {
                        None
                    } else {
                        match fill_outcome(probe.group) {
                            None => None,
                            Some(m) => Some(Err(m)),
                        }
                    },
                    Sweep::Finished => Some(
                        Ok(
                            PaperView::WallpaperList(
                                WallpaperListView {
                                    imports: None,
                                    list: Seq::empty(),
                                    config: configured(default_config(), w),
                                },
                            ),
                        ),
                    ),
                },
            }
        } else if probe.is_file {
            match camino_file_name(p) {
                None => None,
                Some(n) => match extension_of_name(Some(n)) {
                    None => Some(Err("wallpaper has no extension"@)),
                    Some(x) => if image_extension(x) {
                        Some(
                            Ok(
                                PaperView::Wallpaper(
                                    WallpaperView {
                                        name: first_field(n, '.'),
                                        path: p,
                                        config: configured(default_config(), w),
                                    },
                                ),
                            ),
                        )
                    } else {
                        Some(Err("extension of wallpaper not supported"@))
                    },
                },
            }
        } else {
            Some(Err("path of wallpaper not found"@))
        },
    }
}

/// Applies one setting of a description to a configuration.
fn apply_one(cfg: &mut WallpaperConfig, k: &String, v: &String)
    ensures
        final(cfg)@ == apply_setting(old(cfg)@, k@, v@),
{
    if eq_str(k.as_str(), "time") || eq_str(k.as_str(), "timer") {
        cfg.set_time(v.clone());
    } else if eq_str(k.as_str(), "engine") {
        cfg.set_engine(v.clone());
    } else if eq_str(k.as_str(), "theme") {
        cfg.theme = Some(Theme::named(v.clone()));
    }
}

/// Applies a description's settings, in order, then its engine.
pub fn apply_wpaper(cfg: &mut WallpaperConfig, w: &Wpaper)
    ensures
        final(cfg)@ == configured(old(cfg)@, w@),
{
    let ghost start = cfg@;
    match &w.config {
        Some(m) => {
            let ghost s = m.pairs();
            let mut i: usize = 0;
            assert(s.take(0) =~= Seq::<(Seq<char>, Seq<char>)>::empty());
            while i < m.len()
                invariant
                    i <= s.len(),
                    s == m.pairs(),
                    cfg@ == apply_settings(start, s.take(i as int)),
                decreases s.len() - i,
            {
                assert(s.take(i as int + 1).drop_last() =~= s.take(i as int));
                apply_one(cfg, m.key_at(i), m.value_at(i));
                i = i + 1;
            }
            assert(s.take(i as int) =~= s);
        },
        None => {},
    }
    match &w.engine {
        Some(e) => cfg.set_engine(e.clone()),
        None => {},
    }
}

/// The first pass through a walk: whether it holds an image file (`None`
/// where the pass cannot go on).
fn scan_for_image(items: &Vec<WalkItem>) -> (r: Option<Result<bool, String>>)
    ensures
        match first_scan(items@) {
            Scan::Fails(m) => r matches Some(x) && is_err_with(x, m),
            Scan::Done(b) => r == Some(Ok::<bool, String>(b)),
            Scan::Panics => r is None,
        },
{
    let mut i: usize = 0;
    assert(items@.skip(0) =~= items@);
    while i < items.len()
        invariant
            i <= items@.len(),
            first_scan(items@) == first_scan(items@.skip(i as int)),
        decreases items@.len() - i,
    {
        let ghost rest = items@.skip(i as int);
        assert(rest.len() > 0);
        assert(rest[0] == items@[i as int]);
        assert(rest.skip(1) =~= items@.skip(i as int + 1));
        match &items[i] {
            WalkItem::Failed(m) => {
                return Some(Err(m.clone()));
            },
            WalkItem::Entry(e) => {
                if e.is_file {
                    match &e.extension {
                        ExtensionInfo::Missing => {
                            return None;
                        },
                        ExtensionInfo::NotUtf8 => {
                            return Some(Err(String::from_str("Invalid file extension")));
                        },
                        ExtensionInfo::Text(x) => {
                            if is_image_extension(x.as_str()) {
                                return Some(Ok(true));
                            }
                        },
                    }
                }
            },
        }
        assert(first_scan(rest) == first_scan(rest.skip(1)));
        i = i + 1;
    }
    Some(Ok(false))
}

/// The outcome of the second pass, as the checking code acts on it.
enum SweepResult {
    Panic,
    Fail(String),
    Image,
    Finished,
}

/// The second pass through a walk.
fn sweep(items: &Vec<WalkItem>, file_check: bool) -> (r: SweepResult)
    ensures
        match second_sweep(items@, file_check) {
            Sweep::Fails(m) => r matches SweepResult::Fail(e) && e@ == m,
            Sweep::Image => r is Image,
            Sweep::Finished => r is Finished,
            Sweep::Panics => r is Panic,
        },
{
    let mut i: usize = 0;
    assert(items@.skip(0) =~= items@);
    while i < items.len()
        invariant
            i <= items@.len(),
            second_sweep(items@, file_check) == second_sweep(items@.skip(i as int), file_check),
        decreases items@.len() - i,
    {
        let ghost rest = items@.skip(i as int);
        assert(rest.len() > 0);
        assert(rest[0] == items@[i as int]);
        assert(rest.skip(1) =~= items@.skip(i as int + 1));
        match &items[i] {
            WalkItem::Failed(m) => {
                return SweepResult::Fail(m.clone());
            },
            WalkItem::Entry(e) => {
                if e.is_file {
                    match &e.extension {
                        ExtensionInfo::Missing => {
                            return SweepResult::Panic;
                        },
                        ExtensionInfo::NotUtf8 => {
                            return SweepResult::Fail(String::from_str("Invalid file extension"));
                        },
                        ExtensionInfo::Text(x) => {
                            if is_image_extension(x.as_str()) {
                                return SweepResult::Image;
                            }
                            if e.is_dir && !file_check {
                                return SweepResult::Panic;
                            }
                        },
                    }
                } else if e.is_dir && !file_check {
                    return SweepResult::Panic;
                }
            },
        }
        assert(second_sweep(rest, file_check) == second_sweep(rest.skip(1), file_check));
        i = i + 1;
    }
    SweepResult::Finished
}

/// Whether filling a group from `probe` goes through every entry.
pub fn fill_goes_through(probe: &DirProbe) -> (b: bool)
    ensures
        b == forall|i: int| 0 <= i < probe.items@.len() ==> fill_item_ok(#[trigger] probe.items@[i]),
{
    let mut i: usize = 0;
    while i < probe.items.len()
        invariant
            i <= probe.items@.len(),
            forall|j: int| 0 <= j < i ==> fill_item_ok(#[trigger] probe.items@[j]),
        decreases probe.items@.len() - i,
    {
        match &probe.items[i] {
            WalkItem::Entry(e) => {
                if e.is_file {
                    match &e.extension {
                        ExtensionInfo::NotUtf8 => {
                            return false;
                        },
                        ExtensionInfo::Text(x) => {
                            if is_image_extension(x.as_str()) && e.expanded.is_none() {
                                return false;
                            }
                        },
                        ExtensionInfo::Missing => {},
                    }
                }
            },
            WalkItem::Failed(_) => {},
        }
        i = i + 1;
    }
    true
}

/// The model of a checking outcome that may stop the program.
pub open spec fn outcome_view(r: Option<Result<Paper, String>>) -> Option<Result<PaperView, Seq<char>>> {
    match r {
        Some(x) => Some(result_view(x)),
        None => None,
    }
}

/// Checks a wallpaper source against the file system, like `check_paper`,
/// but returns `None` where checking cannot go on (a file without extension
/// in the walk, a directory walked before any image was found, a path
/// without a last component).
pub fn try_check_paper(paper: Paper, probe: &PaperProbe) -> (r: Option<Result<Paper, String>>)
    ensures
        !(paper is Wpaper) ==> r == Some(Ok::<Paper, String>(paper)),
        paper is Wpaper ==> outcome_view(r) == check_wpaper(paper->Wpaper_0@, *probe),
{
    match paper {
        Paper::WallpaperList(wallpaper_list) => Some(Ok(Paper::WallpaperList(wallpaper_list))),
        Paper::Wallpaper(wallpaper) => Some(Ok(Paper::Wallpaper(wallpaper))),
        Paper::Group(group) => Some(Ok(Paper::Group(group))),
        Paper::Wpaper(wallpaper) => check_description(&wallpaper, probe),
    }
}

/// Checks a wallpaper description against the file system, which `probe`
/// describes for its path; `None` where checking cannot go on.
pub fn check_description(wallpaper: &Wpaper, probe: &PaperProbe) -> (r: Option<Result<Paper, String>>)
    ensures
        outcome_view(r) == check_wpaper(wallpaper@, *probe),
{
    match &wallpaper.path {
        None => Some(Err(String::from_str("no path of wallpaper"))),
        Some(path_str) => {
            if !probe.exists {
                return Some(Err(String::from_str("path of Wallpaper not found")));
            }
            if probe.is_dir {
                let file_check = match scan_for_image(&probe.items) {
                    Some(Ok(b)) => b,
                    Some(Err(m)) => return Some(Err(m)),
                    None => return None,
                };
                match sweep(&probe.items, file_check) {
                    SweepResult::Panic => None,
                    SweepResult::Fail(m) => Some(Err(m)),
                    SweepResult::Image => {
                        let name = match file_name_of(path_str.as_str()) {
                            Some(n) => n,
                            None => return None,
                        };
                        if !probe.group.exists || !probe.group.is_dir || fill_goes_through(&probe.group) {
                            let mut group = Group::new(name);
                            apply_wpaper(&mut group.config, wallpaper);
                            group.path = Some(path_str.clone());
                            match group.fill_wallpaper(&probe.group) {
                                Err(m) => Some(Err(m)),
                                Ok(()) => Some(Ok(Paper::Group(group))),
                            }
                        } else {
                            None
                        }
                    },
                    SweepResult::Finished => {
                        let mut wallpaper_list = WallpaperList::new();
                        apply_wpaper(&mut wallpaper_list.config, wallpaper);
                        Some(Ok(Paper::WallpaperList(wallpaper_list)))
                    },
                }
            } else if probe.is_file {
                let file_name = match file_name_of(path_str.as_str()) {
                    Some(n) => n,
                    None => return None,
                };
                let name = first_field_of(file_name.as_str(), '.');
                let extension = match extension_of(path_str.as_str()) {
                    Some(x) => x,
                    None => return Some(Err(String::from_str("wallpaper has no extension"))),
                };
                if is_image_extension(extension.as_str()) {
                    let mut wp = Wallpaper::new(name, path_str.clone());
                    apply_wpaper(&mut wp.config, wallpaper);
                    Some(Ok(Paper::Wallpaper(wp)))
                } else {
                    Some(Err(String::from_str("extension of wallpaper not supported")))
                }
            } else {
                Some(Err(String::from_str("path of wallpaper not found")))
            }
        },
    }
}

/// Checks a wallpaper source against the file system, which `probe`
/// describes for the path of a description. Wallpapers, groups and lists
/// are returned as they are. A description with the path of an image file
/// becomes a wallpaper named by the file name up to its first `.`; one with
/// the path of a directory becomes a list of groups when neither an image
/// nor a subdirectory is found, and fails otherwise. The description's
/// settings and engine are applied to what it becomes.
pub fn check_paper(paper: Paper, probe: &PaperProbe) -> (r: Result<Paper, String>)
    requires
        paper is Wpaper ==> check_wpaper(paper->Wpaper_0@, *probe) is Some,
    ensures
        !(paper is Wpaper) ==> r == Ok::<Paper, String>(paper),
        paper is Wpaper ==> result_view(r) == check_wpaper(paper->Wpaper_0@, *probe).unwrap(),
{
    try_check_paper(paper, probe).unwrap()
}

/// What checking gives is no description: checking it again, against any
/// probe, gives it back unchanged. A description that is checked
/// successfully becomes a single wallpaper or a list of groups.
pub proof fn law_check_settles(w: WpaperView, probe: PaperProbe)
    ensures
        check_wpaper(w, probe) matches Some(Ok(q)) ==> (q is Wallpaper || q is WallpaperList),
{
}

/// The configuration that a checked source carries.
pub open spec fn paper_config(q: PaperView) -> WallpaperConfigView {
    match q {
        PaperView::Wallpaper(w) => w.config,
        PaperView::Group(g) => g.config,
        PaperView::WallpaperList(l) => l.config,
        PaperView::Wpaper(_) => default_config(),
    }
}

/// A setting named `time` or `timer` sets the switching time, one named
/// `engine` the engine and one named `theme` the theme, each to the
/// setting's value and leaving the rest; a setting of any other name
/// changes nothing.
pub proof fn law_settings(c: WallpaperConfigView, k: Seq<char>, v: Seq<char>)
    ensures
        apply_setting(c, "time"@, v) == (WallpaperConfigView { time: Some(v), ..c }),
        apply_setting(c, "timer"@, v) == (WallpaperConfigView { time: Some(v), ..c }),
        apply_setting(c, "engine"@, v) == (WallpaperConfigView { engine: v, ..c }),
        apply_setting(c, "theme"@, v) == (WallpaperConfigView { theme: Some(v), ..c }),
        (k != "time"@ && k != "timer"@ && k != "engine"@ && k != "theme"@) ==> apply_setting(c, k, v) == c,
{
    reveal_strlit("time");
    reveal_strlit("timer");
    reveal_strlit("engine");
    reveal_strlit("theme");
    assert("engine"@ != "time"@ && "engine"@ != "timer"@) by {
        assert("engine"@[0] != "time"@[0]);
        assert("engine"@[0] != "timer"@[0]);
    }
    assert("theme"@ != "time"@ && "theme"@ != "timer"@ && "theme"@ != "engine"@) by {
        assert("theme"@.len() != "time"@.len());
        assert("theme"@[4] != "timer"@[4]);
        assert("theme"@[0] != "engine"@[0]);
    }
}

/// A description's own engine decides the engine of what it is checked
/// into; without one, a last setting named `engine` does.
pub proof fn law_checked_engine(w: WpaperView, probe: PaperProbe, s: Seq<(Seq<char>, Seq<char>)>, v: Seq<char>)
    ensures
        w.engine matches Some(e) ==> (check_wpaper(w, probe) matches Some(Ok(q)) ==> paper_config(q).engine == e),
        (w.engine is None && w.config == Some(s) && s.len() > 0 && s.last() == ("engine"@, v)) ==> (check_wpaper(
            w,
            probe,
        ) matches Some(Ok(q)) ==> paper_config(q).engine == v),
{
    if w.engine is None && w.config == Some(s) && s.len() > 0 && s.last() == ("engine"@, v) {
        law_settings(apply_settings(default_config(), s.drop_last()), "engine"@, v);
    }
}

/// A description of an existing regular file whose extension is `jpg`,
/// `png`, `jpeg` or `webp` is checked into a wallpaper named by the file
/// name up to its first `.`, at the description's path.
pub proof fn law_image_file_becomes_wallpaper(w: WpaperView, probe: PaperProbe, n: Seq<char>, x: Seq<char>)
    requires
        w.path is Some,
        probe.exists,
        !probe.is_dir,
        probe.is_file,
        camino_file_name(w.path.unwrap()) == Some(n),
        extension_of_name(Some(n)) == Some(x),
        x == "jpg"@ || x == "png"@ || x == "jpeg"@ || x == "webp"@,
    ensures
        check_wpaper(w, probe) matches Some(Ok(PaperView::Wallpaper(wv))) && wv.name == first_field(n, '.')
            && wv.path == w.path.unwrap() && wv.config == configured(default_config(), w),
{
}

} // verus!
