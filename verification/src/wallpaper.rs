//! Wallpapers, groups of wallpapers and lists of groups, the selection state
//! that records which of them is active, and the filling of a group from
//! the files found under its directory.

use vstd::prelude::*;
use vstd::string::*;
use crate::pathname::{camino_file_name, file_name_of};
use crate::seqs::{
    ViewEq, views, dedup_runs, all_distinct, settled, law_settled_idempotent, position_of, all_unique, dedup_vec,
};
use crate::text::{eq_str, is_err_with};
use crate::theme::{Theme, copy_theme, same_theme, same_opt_str, copy_opt_str};

verus! {

/// The model of a wallpaper configuration.
pub struct WallpaperConfigView {
    pub theme: Option<Seq<char>>,
    pub time: Option<Seq<char>>,
    pub engine: Seq<char>,
}

/// The model of a wallpaper.
pub struct WallpaperView {
    pub name: Seq<char>,
    pub path: Seq<char>,
    pub config: WallpaperConfigView,
}

/// The model of a group of wallpapers.
pub struct GroupView {
    pub name: Seq<char>,
    pub path: Option<Seq<char>>,
    pub list: Seq<WallpaperView>,
    pub config: WallpaperConfigView,
}

/// The model of a list of groups; `imports` counts the (empty) import
/// records, if any.
pub struct WallpaperListView {
    pub imports: Option<nat>,
    pub list: Seq<GroupView>,
    pub config: WallpaperConfigView,
}

/// The configuration that everything starts with: no theme, no time and the
/// `swww` engine.
pub open spec fn default_config() -> WallpaperConfigView {
    WallpaperConfigView { theme: None, time: None, engine: "swww"@ }
}

/// How wallpapers are shown: theme, switching time and the engine that
/// draws them.
#[derive(Debug, Clone)]
pub struct WallpaperConfig {
    pub theme: Option<Theme>,
    pub time: Option<String>,
    pub engine: String,
}

impl View for WallpaperConfig {
    type V = WallpaperConfigView;

    open spec fn view(&self) -> WallpaperConfigView {
        WallpaperConfigView { theme: self.theme.deep_view(), time: self.time.deep_view(), engine: self.engine@ }
    }
}

impl WallpaperConfig {
    /// The default configuration.
    pub fn new() -> (c: WallpaperConfig)
        ensures
            c@ == default_config(),
    {
        WallpaperConfig { theme: None, time: None, engine: String::from_str("swww") }
    }

    /// Sets the switching time.
    pub fn set_time(&mut self, time: String)
        ensures
            final(self)@ == (WallpaperConfigView { time: Some(time@), ..old(self)@ }),
    {
        self.time = Some(time);
    }

    /// Sets the engine.
    pub fn set_engine(&mut self, engine: String)
        ensures
            final(self)@ == (WallpaperConfigView { engine: engine@, ..old(self)@ }),
    {
        self.engine = engine;
    }
}

impl ViewEq for WallpaperConfig {
    fn view_eq(&self, other: &Self) -> (b: bool) {
        same_theme(&self.theme, &other.theme) && same_opt_str(&self.time, &other.time) && self.engine
            == other.engine
    }

    fn duplicate(&self) -> (r: Self) {
        WallpaperConfig {
            theme: copy_theme(&self.theme),
            time: copy_opt_str(&self.time),
            engine: self.engine.clone(),
        }
    }
}

/// A single wallpaper: its name, the path of its image and its configuration.
#[derive(Debug, Clone)]
pub struct Wallpaper {
    pub name: String,
    pub path: String,
    pub config: WallpaperConfig,
}

impl View for Wallpaper {
    type V = WallpaperView;

    open spec fn view(&self) -> WallpaperView {
        WallpaperView { name: self.name@, path: self.path@, config: self.config@ }
    }
}

impl DeepView for Wallpaper {
    type V = WallpaperView;

    open spec fn deep_view(&self) -> WallpaperView {
        self.view()
    }
}

impl ViewEq for Wallpaper {
    fn view_eq(&self, other: &Self) -> (b: bool) {
        self.name == other.name && self.path == other.path && self.config.view_eq(&other.config)
    }

    fn duplicate(&self) -> (r: Self) {
        Wallpaper { name: self.name.clone(), path: self.path.clone(), config: self.config.duplicate() }
    }
}

impl Wallpaper {
    /// The wallpaper `name` at `path`, with the default configuration.
    pub fn new(name: String, path: String) -> (w: Wallpaper)
        ensures
            w@ == (WallpaperView { name: name@, path: path@, config: default_config() }),
    {
        Wallpaper { name, path, config: WallpaperConfig::new() }
    }

    /// Replaces the configuration.
    pub fn set_config(&mut self, config: WallpaperConfig)
        ensures
            final(self)@ == (WallpaperView { config: config@, ..old(self)@ }),
    {
        self.config = config;
    }

    /// Records this wallpaper as the active one; nothing else changes.
    pub fn make_current(&self, state: &mut ActiveState)
        ensures
            wallpaper_made_current(*old(state), *final(state), self@),
    {
        state.wallpaper = self.duplicate();
    }

    /// Settles the active group once this wallpaper is made active: runs of
    /// equal neighbours are shortened when the group holds a wallpaper twice,
    /// and the group is backed up.
    ///
    /// The wallpaper must not be in the active group already: moving it
    /// there to the end is an insertion past the end of the group.
    pub fn settle_active_group(&self, state: &mut ActiveState)
        requires
            forall|j: int| 0 <= j < old(state).group@.list.len() ==> old(state).group@.list[j] != self@,
        ensures
            active_group_settled(*old(state), *final(state)),
    {
        let found = position_of(&state.group.list, self);
        proof {
            if let Some(i) = found {
                assert(state.group.list@[i as int]@ == self@);
            }
        }
        if !all_unique(&state.group.list) {
            let d = dedup_vec(&state.group.list);
            state.group.list = d;
        }
        proof {
            lemma_views_deep(state.group.list@);
            lemma_views_deep(old(state).group.list@);
        }
        state.backup_group = state.group.duplicate();
    }

    /// Makes this wallpaper the active one: it is recorded as the active
    /// wallpaper, then the active group is settled and backed up.
    ///
    /// The wallpaper must not be in the active group already: moving it
    /// there to the end is an insertion past the end of the group.
    pub fn activate(&self, state: &mut ActiveState)
        requires
            forall|j: int| 0 <= j < old(state).group@.list.len() ==> old(state).group@.list[j] != self@,
        ensures
            wallpaper_activated(*old(state), *final(state), self@),
    {
        self.make_current(state);
        self.settle_active_group(state);
    }
}

/// For wallpapers, the views of a sequence are its deep views.
pub proof fn lemma_views_deep(s: Seq<Wallpaper>)
    ensures
        views(s) == Seq::new(s.len(), |i: int| s[i].deep_view()),
{
    assert(views(s) =~= Seq::new(s.len(), |i: int| s[i].deep_view()));
}

/// For groups, the views of a sequence are its deep views.
pub proof fn lemma_group_views_deep(s: Seq<Group>)
    ensures
        views(s) == Seq::new(s.len(), |i: int| s[i].deep_view()),
{
    assert(views(s) =~= Seq::new(s.len(), |i: int| s[i].deep_view()));
}

/// Whether two vectors of wallpapers hold the same wallpapers in order.
pub fn same_wallpapers(a: &Vec<Wallpaper>, b: &Vec<Wallpaper>) -> (r: bool)
    ensures
        r == (a.deep_view() == b.deep_view()),
{
    if a.len() != b.len() {
        assert(a.deep_view().len() != b.deep_view().len());
        return false;
    }
    let mut i: usize = 0;
    while i < a.len()
        invariant
            a@.len() == b@.len(),
            i <= a@.len(),
            forall|j: int| 0 <= j < i ==> a@[j]@ == b@[j]@,
        decreases a@.len() - i,
    {
        if !a[i].view_eq(&b[i]) {
            assert(a.deep_view()[i as int] != b.deep_view()[i as int]);
            return false;
        }
        i = i + 1;
    }
    assert(a.deep_view() =~= b.deep_view());
    true
}

/// A copy of a vector of wallpapers.
pub fn copy_wallpapers(a: &Vec<Wallpaper>) -> (r: Vec<Wallpaper>)
    ensures
        r.deep_view() == a.deep_view(),
{
    let mut r: Vec<Wallpaper> = Vec::new();
    let mut i: usize = 0;
    while i < a.len()
        invariant
            i <= a@.len(),
            r@.len() == i,
            forall|j: int| 0 <= j < i ==> r@[j]@ == a@[j]@,
        decreases a@.len() - i,
    {
        r.push(a[i].duplicate());
        i = i + 1;
    }
    assert(r.deep_view() =~= a.deep_view());
    r
}

/// A named group of wallpapers, optionally read from a directory.
#[derive(Debug, Clone)]
pub struct Group {
    pub name: String,
    pub path: Option<String>,
    pub list: Vec<Wallpaper>,
    pub config: WallpaperConfig,
}

impl View for Group {
    type V = GroupView;

    open spec fn view(&self) -> GroupView {
        GroupView {
            name: self.name@,
            path: self.path.deep_view(),
            list: self.list.deep_view(),
            config: self.config@,
        }
    }
}

impl DeepView for Group {
    type V = GroupView;

    open spec fn deep_view(&self) -> GroupView {
        self.view()
    }
}

impl ViewEq for Group {
    fn view_eq(&self, other: &Self) -> (b: bool) {
        self.name == other.name && same_opt_str(&self.path, &other.path) && same_wallpapers(
            &self.list,
            &other.list,
        ) && self.config.view_eq(&other.config)
    }

    fn duplicate(&self) -> (r: Self) {
        Group {
            name: self.name.clone(),
            path: copy_opt_str(&self.path),
            list: copy_wallpapers(&self.list),
            config: self.config.duplicate(),
        }
    }
}

/// The image extensions that a wallpaper file may have.
pub open spec fn image_extension(e: Seq<char>) -> bool {
    ||| e == "jpg"@
    ||| e == "png"@
    ||| e == "jpeg"@
    ||| e == "webp"@
    ||| e == "gif | .jpg"@
    ||| e == ".png"@
    ||| e == ".jpeg"@
    ||| e == ".webp"@
    ||| e == ".gif"@
}

/// Whether `e` is one of the image extensions.
pub fn is_image_extension(e: &str) -> (b: bool)
    ensures
        b == image_extension(e@),
{
    eq_str(e, "jpg") || eq_str(e, "png") || eq_str(e, "jpeg") || eq_str(e, "webp") || eq_str(
        e,
        "gif | .jpg",
    ) || eq_str(e, ".png") || eq_str(e, ".jpeg") || eq_str(e, ".webp") || eq_str(e, ".gif")
}

/// The extension of a file found in a directory walk.
#[derive(Debug, Clone)]
pub enum ExtensionInfo {
    /// The file name has no extension.
    Missing,
    /// The extension is not valid UTF-8.
    NotUtf8,
    /// The extension.
    Text(String),
}

/// What a directory walk tells of one entry.
#[derive(Debug, Clone)]
pub struct EntryInfo {
    /// The path of the entry.
    pub path: String,
    pub is_file: bool,
    pub is_dir: bool,
    pub extension: ExtensionInfo,
    /// The file name up to its first `.`, if there is one.
    pub prefix: Option<String>,
    /// The expanded form of `path`, or `None` when it cannot be expanded.
    pub expanded: Option<String>,
}

/// One step of a directory walk: an entry, or the message of a failure.
#[derive(Debug, Clone)]
pub enum WalkItem {
    Failed(String),
    Entry(EntryInfo),
}

/// What the file system tells of a directory path and of the walk under it.
#[derive(Debug, Clone)]
pub struct DirProbe {
    pub exists: bool,
    pub is_dir: bool,
    /// The walk, in order, the directory itself included.
    pub items: Vec<WalkItem>,
}

/// Filling from an entry does not fail: a file with an extension has a
/// UTF-8 one, and an image file has an expanded path.
pub open spec fn fill_item_ok(it: WalkItem) -> bool {
    match it {
        WalkItem::Failed(_) => true,
        WalkItem::Entry(e) => e.is_file ==> match e.extension {
            ExtensionInfo::Missing => true,
            ExtensionInfo::NotUtf8 => false,
            ExtensionInfo::Text(x) => image_extension(x@) ==> e.expanded is Some,
        },
    }
}

/// The wallpaper that an entry contributes to a group: an image file with a
/// prefix becomes a wallpaper named by the prefix at its expanded path.
pub open spec fn fill_item_found(it: WalkItem, config: WallpaperConfigView) -> Seq<WallpaperView> {
    match it {
        WalkItem::Entry(e) => if e.is_file && e.extension is Text && image_extension(
            e.extension->Text_0@,
        ) && e.prefix is Some {
            seq![WallpaperView { name: e.prefix.unwrap()@, path: e.expanded.unwrap()@, config }]
        } else {
            Seq::empty()
        },
        WalkItem::Failed(_) => Seq::empty(),
    }
}

/// The wallpapers that a walk contributes to a group, in walk order.
pub open spec fn fill_found(items: Seq<WalkItem>, config: WallpaperConfigView) -> Seq<WallpaperView>
    decreases items.len(),
{
    if items.len() == 0 {
        Seq::empty()
    } else {
        fill_found(items.drop_last(), config) + fill_item_found(items.last(), config)
    }
}

impl Group {
    /// An empty group called `name`, without path, with the default
    /// configuration.
    pub fn new(name: String) -> (g: Group)
        ensures
            g@ == (GroupView { name: name@, path: None, list: Seq::empty(), config: default_config() }),
    {
        let g = Group { name, path: None, list: Vec::new(), config: WallpaperConfig::new() };
        assert(g.list.deep_view() =~= Seq::<WallpaperView>::empty());
        g
    }

    /// Replaces the configuration.
    pub fn set_config(&mut self, config: WallpaperConfig)
        ensures
            final(self)@ == (GroupView { config: config@, ..old(self)@ }),
    {
        self.config = config;
    }

    /// Sets the directory of the group; `path` is the path once expanded.
    pub fn set_path(&mut self, path: String)
        ensures
            final(self)@ == (GroupView { path: Some(path@), ..old(self)@ }),
    {
        self.path = Some(path);
    }

    /// Fills the group from the walk of its directory, which `probe`
    /// describes. Without a path nothing happens. With one, the result is an
    /// error in every case: "Path not found" when the path does not exist,
    /// "Not a directory" when it is no directory, and "Path not found" again
    /// after the image files of the walk have been added to the group.
    pub fn fill_wallpaper(&mut self, probe: &DirProbe) -> (r: Result<(), String>)
        requires
            old(self).path is Some && probe.exists && probe.is_dir ==> forall|i: int|
                0 <= i < probe.items@.len() ==> fill_item_ok(#[trigger] probe.items@[i]),
        ensures
            old(self).path is None ==> r is Ok && final(self)@ == old(self)@,
            old(self).path is Some && !probe.exists ==> is_err_with(r, "Path not found"@)
                && final(self)@ == old(self)@,
            old(self).path is Some && probe.exists && !probe.is_dir ==> is_err_with(r,
                "Not a directory"@) && final(self)@ == old(self)@,
            old(self).path is Some && probe.exists && probe.is_dir ==> is_err_with(r,
                "Path not found"@) && final(self)@ == (GroupView {
                list: old(self)@.list + fill_found(probe.items@, old(self)@.config),
                ..old(self)@
            }),
            old(self).path is Some && probe.exists && probe.is_dir ==> forall|j: int|
                old(self)@.list.len() <= j < final(self)@.list.len() ==> (#[trigger] final(self)@.list[j]).config
                    == old(self)@.config,
    {
        if self.path.is_none() {
            return Ok(());
        }
        if !probe.exists {
            return Err(String::from_str("Path not found"));
        }
        if !probe.is_dir {
            return Err(String::from_str("Not a directory"));
        }
        let ghost start = self@;
        let mut i: usize = 0;
        assert(probe.items@.take(0) =~= Seq::<WalkItem>::empty());
        assert(start.list + fill_found(probe.items@.take(0), start.config) =~= start.list);
        while i < probe.items.len()
            invariant
                i <= probe.items@.len(),
                forall|k: int| 0 <= k < probe.items@.len() ==> fill_item_ok(#[trigger] probe.items@[k]),
                self.path is Some,
                self@ == (GroupView {
                    list: start.list + fill_found(probe.items@.take(i as int), start.config),
                    ..start
                }),
            decreases probe.items@.len() - i,
        {
            let ghost before = self.list.deep_view();
            let ghost it = probe.items@[i as int];
            assert(probe.items@.take(i as int + 1).drop_last() =~= probe.items@.take(i as int));
            assert(fill_item_ok(it));
            match &probe.items[i] {
                WalkItem::Entry(e) => {
                    if e.is_file {
                        match &e.extension {
                            ExtensionInfo::Text(x) => {
                                if is_image_extension(x.as_str()) {
                                    match &e.prefix {
                                        Some(p) => {
                                            let path = e.expanded.clone().unwrap();
                                            let mut wp = Wallpaper::new(p.clone(), path);
                                            wp.set_config(self.config.duplicate());
                                            self.list.push(wp);
                                            assert(self.list.deep_view() =~= before.push(wp@));
                                        },
                                        None => {},
                                    }
                                }
                            },
                            _ => {},
                        }
                    }
                },
                WalkItem::Failed(_) => {},
            }
            assert(self.list.deep_view() =~= start.list + fill_found(probe.items@.take(i as int + 1), start.config));
            i = i + 1;
        }
        assert(probe.items@.take(i as int) =~= probe.items@);
        proof {
            law_filled_wallpapers_carry_config(probe.items@, start.config);
        }
        Err(String::from_str("Path not found"))
    }

    /// Makes this group the active one. Runs of equal neighbours in the list
    /// of groups are shortened when the list holds a group twice, the list is
    /// backed up, and the group becomes the active and the backed-up group.
    /// The result is a copy of the group's first wallpaper, which is to be
    /// shown next, or `None` when the group is empty and there is none to
    /// show.
    ///
    /// The group must not be in the list already: moving it there to the end
    /// is an insertion past the end of the list.
    pub fn set_group(&self, state: &mut ActiveState) -> (first: Option<Wallpaper>)
        requires
            forall|j: int| 0 <= j < old(state).list@.list.len() ==> old(state).list@.list[j] != self@,
        ensures
            group_chosen(*old(state), *final(state), self@),
            first is Some <==> self@.list.len() > 0,
            first matches Some(w) ==> w@ == self@.list[0],
    {
        let found = position_of(&state.list.list, self);
        proof {
            if let Some(i) = found {
                assert(state.list.list@[i as int]@ == self@);
            }
        }
        if !all_unique(&state.list.list) {
            let d = dedup_vec(&state.list.list);
            state.list.list = d;
        }
        proof {
            lemma_group_views_deep(state.list.list@);
            lemma_group_views_deep(old(state).list.list@);
        }
        state.backup_list = state.list.duplicate();
        state.group = self.duplicate();
        state.backup_group = self.duplicate();
        if self.list.len() > 0 {
            proof {
                lemma_views_deep(self.list@);
            }
            Some(self.list[0].duplicate())
        } else {
            None
        }
    }
}

/// An (empty) import record of a wallpaper list.
#[derive(Debug, Clone, Copy)]
pub struct Imports {}

/// The groups of wallpapers that can be chosen from, with their common
/// configuration.
#[derive(Debug, Clone)]
pub struct WallpaperList {
    pub imports: Option<Vec<Imports>>,
    pub list: Vec<Group>,
    pub config: WallpaperConfig,
}

impl View for WallpaperList {
    type V = WallpaperListView;

    open spec fn view(&self) -> WallpaperListView {
        WallpaperListView {
            imports: match self.imports {
                Some(v) => Some(v@.len()),
                None => None,
            },
            list: self.list.deep_view(),
            config: self.config@,
        }
    }
}

/// A copy of a vector of groups.
pub fn copy_groups(a: &Vec<Group>) -> (r: Vec<Group>)
    ensures
        r.deep_view() == a.deep_view(),
{
    let mut r: Vec<Group> = Vec::new();
    let mut i: usize = 0;
    while i < a.len()
        invariant
            i <= a@.len(),
            r@.len() == i,
            forall|j: int| 0 <= j < i ==> r@[j]@ == a@[j]@,
        decreases a@.len() - i,
    {
        r.push(a[i].duplicate());
        i = i + 1;
    }
    assert(r.deep_view() =~= a.deep_view());
    r
}

fn copy_imports(a: &Option<Vec<Imports>>) -> (r: Option<Vec<Imports>>)
    ensures
        match a {
            Some(v) => r matches Some(w) && w@.len() == v@.len(),
            None => r is None,
        },
{
    match a {
        Some(v) => {
            let mut w: Vec<Imports> = Vec::new();
            let mut i: usize = 0;
            while i < v.len()
                invariant
                    i <= v@.len(),
                    w@.len() == i,
                decreases v@.len() - i,
            {
                w.push(Imports {});
                i = i + 1;
            }
            Some(w)
        },
        None => None,
    }
}

impl WallpaperList {
    /// An empty list without imports, with the default configuration.
    pub fn new() -> (l: WallpaperList)
        ensures
            l@ == (WallpaperListView { imports: None, list: Seq::empty(), config: default_config() }),
    {
        let l = WallpaperList { list: Vec::new(), imports: None, config: WallpaperConfig::new() };
        assert(l.list.deep_view() =~= Seq::<GroupView>::empty());
        l
    }

    /// Does nothing: a group handed over is dropped.
    pub fn add_group(&mut self, group: Group)
        ensures
            final(self)@ == old(self)@,
    {
    }

    /// Replaces the common configuration.
    pub fn set_config(&mut self, config: WallpaperConfig)
        ensures
            final(self)@ == (WallpaperListView { config: config@, ..old(self)@ }),
    {
        self.config = config;
    }

    /// The group that a directory path gives before it is filled: named by
    /// the last component of the path, with that path and the list's
    /// configuration. `None` when the path has no last component.
    pub fn group_for_path(&self, path_str: String) -> (g: Option<Group>)
        ensures
            g is Some <==> camino_file_name(path_str@) is Some,
            g matches Some(g) ==> g@ == (GroupView {
                name: camino_file_name(path_str@).unwrap(),
                path: Some(path_str@),
                list: Seq::empty(),
                config: self.config@,
            }),
    {
        match file_name_of(path_str.as_str()) {
            Some(name) => {
                let mut group = Group::new(name);
                group.path = Some(path_str);
                group.config = self.config.duplicate();
                Some(group)
            },
            None => None,
        }
    }

    /// A copy of the list.
    pub fn duplicate(&self) -> (r: WallpaperList)
        ensures
            r@ == self@,
    {
        WallpaperList {
            imports: copy_imports(&self.imports),
            list: copy_groups(&self.list),
            config: self.config.duplicate(),
        }
    }
}

/// The model of a wallpaper-list configuration.
pub struct WallpaperListConfigView {
    pub theme: Option<Seq<char>>,
    pub time: Option<Seq<char>>,
    pub engine: Seq<char>,
}

/// The configuration of a wallpaper list.
#[derive(Debug, Clone)]
pub struct WallpaperListConfig {
    theme: Option<Theme>,
    time: Option<String>,
    pub engine: String,
}

impl View for WallpaperListConfig {
    type V = WallpaperListConfigView;

    closed spec fn view(&self) -> WallpaperListConfigView {
        WallpaperListConfigView { theme: self.theme.deep_view(), time: self.time.deep_view(), engine: self.engine@ }
    }
}

impl WallpaperListConfig {
    /// No theme, no time, the `swww` engine.
    pub fn new() -> (c: WallpaperListConfig)
        ensures
            c@ == (WallpaperListConfigView { theme: None, time: None, engine: "swww"@ }),
    {
        WallpaperListConfig { theme: None, time: None, engine: String::from_str("swww") }
    }

    /// Sets the engine.
    pub fn set_engine(&mut self, engine: String)
        ensures
            final(self)@ == (WallpaperListConfigView { engine: engine@, ..old(self)@ }),
    {
        self.engine = engine;
    }
}

/// Which wallpaper, group and list are active, with backups of the group and
/// the list and the switching time.
#[derive(Debug, Clone)]
pub struct ActiveState {
    pub wallpaper: Wallpaper,
    pub group: Group,
    pub list: WallpaperList,
    pub backup_group: Group,
    pub backup_list: WallpaperList,
    pub swap_time: u32,
}

impl ActiveState {
    /// The state before anything is chosen: the wallpaper `default.png` at
    /// `~/.wallpaper/default.png`, the empty group `default_group` (active
    /// and backed up), empty lists and a switching time of zero.
    pub fn new() -> (s: ActiveState)
        ensures
            s.wallpaper@ == (WallpaperView {
                name: "default.png"@,
                path: "~/.wallpaper/default.png"@,
                config: default_config(),
            }),
            s.group@ == (GroupView { name: "default_group"@, path: None, list: Seq::empty(), config: default_config() }),
            s.backup_group@ == s.group@,
            s.list@ == (WallpaperListView { imports: None, list: Seq::empty(), config: default_config() }),
            s.backup_list@ == s.list@,
            s.swap_time == 0,
    {
        ActiveState {
            wallpaper: Wallpaper::new(String::from_str("default.png"), String::from_str("~/.wallpaper/default.png")),
            group: Group::new(String::from_str("default_group")),
            list: WallpaperList::new(),
            backup_group: Group::new(String::from_str("default_group")),
            backup_list: WallpaperList::new(),
            swap_time: 0,
        }
    }
}

/// A copy of the active group.
pub fn get_current_group(state: &ActiveState) -> (g: Group)
    ensures
        g@ == state.group@,
{
    state.group.duplicate()
}

/// A copy of the active wallpaper.
pub fn get_current_wallpaper(state: &ActiveState) -> (w: Wallpaper)
    ensures
        w@ == state.wallpaper@,
{
    state.wallpaper.duplicate()
}

/// `after` is `before` once `w` is made the active wallpaper: `w` is
/// recorded as active, the active group's list is settled and the group is
/// backed up; the list of groups, its backup and the switching time stay.
pub open spec fn wallpaper_activated(before: ActiveState, after: ActiveState, w: WallpaperView) -> bool {
    &&& after.wallpaper@ == w
    &&& after.group@ == (GroupView { list: settled(before.group@.list), ..before.group@ })
    &&& after.backup_group@ == after.group@
    &&& after.list@ == before.list@
    &&& after.backup_list@ == before.backup_list@
    &&& after.swap_time == before.swap_time
}

/// `after` is `before` once `w` is recorded as the active wallpaper, with
/// nothing else changed.
pub open spec fn wallpaper_made_current(before: ActiveState, after: ActiveState, w: WallpaperView) -> bool {
    &&& after.wallpaper@ == w
    &&& after.group@ == before.group@
    &&& after.backup_group@ == before.backup_group@
    &&& after.list@ == before.list@
    &&& after.backup_list@ == before.backup_list@
    &&& after.swap_time == before.swap_time
}

/// `after` is `before` once the active group is settled and backed up; the
/// active wallpaper, the list of groups, its backup and the switching time
/// stay.
pub open spec fn active_group_settled(before: ActiveState, after: ActiveState) -> bool {
    &&& after.wallpaper@ == before.wallpaper@
    &&& after.group@ == (GroupView { list: settled(before.group@.list), ..before.group@ })
    &&& after.backup_group@ == after.group@
    &&& after.list@ == before.list@
    &&& after.backup_list@ == before.backup_list@
    &&& after.swap_time == before.swap_time
}

/// The current wallpaper is the one last recorded as active, whether or
/// not the active group is settled after it.
pub proof fn law_current_is_last_made_current(
    s0: ActiveState,
    s1: ActiveState,
    s2: ActiveState,
    w: WallpaperView,
)
    requires
        wallpaper_made_current(s0, s1, w),
        s2 == s1 || active_group_settled(s1, s2),
    ensures
        s1.wallpaper@ == w,
        s2.wallpaper@ == w,
{
}

/// `after` is `before` once `g` is made the active group: the list of
/// groups is settled and backed up, `g` becomes the active and the backed-up
/// group; the active wallpaper and the switching time stay.
pub open spec fn group_chosen(before: ActiveState, after: ActiveState, g: GroupView) -> bool {
    &&& after.list@ == (WallpaperListView { list: settled(before.list@.list), ..before.list@ })
    &&& after.backup_list@ == after.list@
    &&& after.group@ == g
    &&& after.backup_group@ == g
    &&& after.wallpaper@ == before.wallpaper@
    &&& after.swap_time == before.swap_time
}

/// Once a wallpaper is made active, it is the current wallpaper, and the
/// current group is its own backup.
pub proof fn law_activated_is_current(before: ActiveState, after: ActiveState, w: WallpaperView)
    requires
        wallpaper_activated(before, after, w),
    ensures
        after.wallpaper@ == w,
        after.backup_group@ == after.group@,
        after.group@.name == before.group@.name,
{
}

/// Making the same wallpaper active twice leaves the state as once.
pub proof fn law_activate_twice(s0: ActiveState, s1: ActiveState, s2: ActiveState, w: WallpaperView)
    requires
        wallpaper_activated(s0, s1, w),
        wallpaper_activated(s1, s2, w),
    ensures
        s2.wallpaper@ == s1.wallpaper@,
        s2.group@ == s1.group@,
        s2.backup_group@ == s1.backup_group@,
        s2.list@ == s1.list@,
        s2.backup_list@ == s1.backup_list@,
        s2.swap_time == s1.swap_time,
{
    law_settled_idempotent(s0.group@.list);
}

/// Once a group is made active, it is the current and the backed-up group,
/// and the current wallpaper is the one before.
pub proof fn law_chosen_group_is_current(before: ActiveState, after: ActiveState, g: GroupView)
    requires
        group_chosen(before, after, g),
    ensures
        after.group@ == g,
        after.backup_group@ == g,
        after.wallpaper@ == before.wallpaper@,
        after.backup_list@ == after.list@,
{
}

/// Making the same group active twice leaves the state as once.
pub proof fn law_choose_group_twice(s0: ActiveState, s1: ActiveState, s2: ActiveState, g: GroupView)
    requires
        group_chosen(s0, s1, g),
        group_chosen(s1, s2, g),
    ensures
        s2.wallpaper@ == s1.wallpaper@,
        s2.group@ == s1.group@,
        s2.backup_group@ == s1.backup_group@,
        s2.list@ == s1.list@,
        s2.backup_list@ == s1.backup_list@,
        s2.swap_time == s1.swap_time,
{
    law_settled_idempotent(s0.list@.list);
}

/// The image extensions are exactly those of the list: the four plain ones,
/// the four with a leading dot, and the odd `gif | .jpg`; a plain `gif` is
/// not among them.
pub proof fn law_image_extensions()
    ensures
        image_extension("jpg"@),
        image_extension("png"@),
        image_extension("jpeg"@),
        image_extension("webp"@),
        image_extension(".png"@),
        image_extension(".jpeg"@),
        image_extension(".webp"@),
        image_extension(".gif"@),
        image_extension("gif | .jpg"@),
        !image_extension("gif"@),
{
    reveal_strlit("gif");
    reveal_strlit("jpg");
    reveal_strlit("png");
    reveal_strlit("jpeg");
    reveal_strlit("webp");
    reveal_strlit(".png");
    reveal_strlit(".jpeg");
    reveal_strlit(".webp");
    reveal_strlit(".gif");
    reveal_strlit("gif | .jpg");
    assert("gif"@ != "jpg"@ && "gif"@ != "png"@ && "gif"@ != "jpeg"@ && "gif"@ != "webp"@) by {
        assert("gif"@[0] != "jpg"@[0]);
        assert("gif"@[0] != "png"@[0]);
        assert("gif"@.len() != "jpeg"@.len());
        assert("gif"@.len() != "webp"@.len());
    }
    assert("gif"@[0] != ".png"@[0]);
    assert("gif"@[0] != ".jpeg"@[0]);
    assert("gif"@[0] != ".webp"@[0]);
    assert("gif"@[0] != ".gif"@[0]);
    assert("gif"@.len() != "gif | .jpg"@.len());
}

/// `w` is named by the prefix of the image file `it` and lies at its
/// expanded path.
pub open spec fn named_after_image(it: WalkItem, w: WallpaperView) -> bool {
    match it {
        WalkItem::Entry(e) => e.is_file && e.extension is Text && image_extension(e.extension->Text_0@)
            && e.prefix is Some && w.name == e.prefix.unwrap()@ && w.path
            == e.expanded.unwrap()@,
        WalkItem::Failed(_) => false,
    }
}

/// Every wallpaper that filling finds is an image file of the walk: named
/// by its prefix, at its expanded path, and carrying the configuration it
/// was filled with.
pub proof fn law_filled_wallpapers_carry_config(items: Seq<WalkItem>, config: WallpaperConfigView)
    ensures
        forall|j: int| 0 <= j < fill_found(items, config).len() ==> (#[trigger] fill_found(items, config)[j]).config
            == config,
        forall|j: int| 0 <= j < fill_found(items, config).len() ==> exists|i: int|
            0 <= i < items.len() && named_after_image(items[i], #[trigger] fill_found(items, config)[j]),
        fill_found(items, config).len() <= items.len(),
    decreases items.len(),
{
    if items.len() > 0 {
        let t = items.drop_last();
        law_filled_wallpapers_carry_config(t, config);
        let a = fill_found(t, config);
        let b = fill_item_found(items.last(), config);
        assert(fill_found(items, config) == a + b);
        assert forall|j: int| 0 <= j < fill_found(items, config).len() implies exists|i: int|
            0 <= i < items.len() && named_after_image(items[i], #[trigger] fill_found(items, config)[j]) by {
            if j < a.len() {
                let i = choose|i: int| 0 <= i < t.len() && named_after_image(t[i], #[trigger] a[j]);
                assert(items[i] == t[i]);
                assert(fill_found(items, config)[j] == a[j]);
            } else {
                assert(items[items.len() - 1] == items.last());
                assert(b.len() > 0);
                assert(fill_found(items, config)[j] == b[j - a.len()]);
                assert(b[j - a.len()] == b[0]);
                assert(named_after_image(items.last(), b[0]));
            }
        }
    }
}

} // verus!
