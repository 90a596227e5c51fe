//! What reading configuration files leaves for the rest of the program.

use vstd::prelude::*;
use crate::interpret::conf_outcome;
use crate::interpret::ParseNode;
use crate::interpret::Answers;
use crate::keyed::KeyedMap;
use crate::parser::{File, FileView, Import, Imports, Profile, ProfileView, Variable, VariableView};

verus! {

/// The profiles of the file read last, the imports of every file read, and
/// the global variables of all files read.
#[derive(Debug)]
pub struct Stores {
    pub profiles: KeyedMap<Profile>,
    pub imports: Vec<Imports>,
    pub globals: KeyedMap<Variable>,
}

/// The model of the stores: profiles and global variables by name, and for
/// each file read, its path with the files it imports.
pub struct StoresView {
    pub profiles: Map<Seq<char>, ProfileView>,
    pub imports: Seq<(Seq<char>, Seq<Seq<char>>)>,
    pub globals: Map<Seq<char>, VariableView>,
}

/// The model of the imports of one file.
pub open spec fn imports_view(i: Imports) -> (Seq<char>, Seq<Seq<char>>) {
    (i.file@, i.import@.map_values(|x: Import| x.path@))
}

impl View for Stores {
    type V = StoresView;

    open spec fn view(&self) -> StoresView {
        StoresView {
            profiles: self.profiles@,
            imports: self.imports@.map_values(|i: Imports| imports_view(i)),
            globals: self.globals@,
        }
    }
}

/// The stores once the file `f` is recorded: its profiles replace those
/// there were, its imports are appended under its path, and its global
/// variables are added, replacing those of the same name.
pub open spec fn recorded(s: StoresView, f: FileView) -> StoresView {
    StoresView {
        profiles: f.profiles,
        imports: s.imports.push((f.path, f.import)),
        globals: s.globals.union_prefer_right(f.global_variables),
    }
}

impl Stores {
    /// Nothing read yet.
    pub fn new() -> (s: Stores)
        ensures
            s@.profiles == Map::<Seq<char>, ProfileView>::empty(),
            s@.imports == Seq::<(Seq<char>, Seq<Seq<char>>)>::empty(),
            s@.globals == Map::<Seq<char>, VariableView>::empty(),
    {
        let s = Stores { profiles: KeyedMap::new(), imports: Vec::new(), globals: KeyedMap::new() };
        assert(s@.imports =~= Seq::<(Seq<char>, Seq<Seq<char>>)>::empty());
        s
    }

    /// Records what a file gives.
    pub fn record(&mut self, file: File)
        ensures
            final(self)@ == recorded(old(self)@, file@),
    {
        let ghost fv = file@;
        let ghost before = self.imports@;
        let File { path, import, profiles, global_variables } = file;
        self.profiles = profiles;
        self.globals.extend(global_variables);
        self.imports.push(Imports { file: path, import });
        assert(self.imports@.map_values(|i: Imports| imports_view(i)) =~= before.map_values(
            |i: Imports| imports_view(i),
        ).push((fv.path, fv.import)));
    }
}

/// Reading the same file twice, with the same answers, leaves the profiles
/// and the global variables as reading it once, and records its imports a
/// second time.
pub proof fn law_read_twice(path: Seq<char>, tree: ParseNode, ans: Answers, s0: StoresView)
    requires
        conf_outcome(path, tree, ans) is Ok,
    ensures
        ({
            let v = conf_outcome(path, tree, ans)->Ok_0;
            let s1 = recorded(s0, v);
            let s2 = recorded(s1, v);
            &&& s2.profiles == s1.profiles
            &&& s2.globals == s1.globals
            &&& s1.imports.last() == (path, v.import)
            &&& s2.imports == s1.imports.push(s1.imports.last())
        }),
{
    let v = conf_outcome(path, tree, ans)->Ok_0;
    let s1 = recorded(s0, v);
    assert(s1.globals.union_prefer_right(v.global_variables) =~= s1.globals);
}

} // verus!
