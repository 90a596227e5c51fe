//! Themes that a wallpaper configuration may name.

use vstd::prelude::*;
use vstd::string::*;

verus! {

/// A theme, known by its name.
#[derive(Debug, Clone)]
pub struct Theme {
    pub name: String,
}

impl View for Theme {
    type V = Seq<char>;

    open spec fn view(&self) -> Seq<char> {
        self.name@
    }
}

impl DeepView for Theme {
    type V = Seq<char>;

    open spec fn deep_view(&self) -> Seq<char> {
        self.view()
    }
}

impl Theme {
    /// The theme called `name`.
    pub fn named(name: String) -> (t: Theme)
        ensures
            t@ == name@,
    {
        Theme { name }
    }

    /// Whether both themes have the same name.
    pub fn same_as(&self, other: &Theme) -> (b: bool)
        ensures
            b == (self@ == other@),
    {
        self.name == other.name
    }

    /// A copy of the theme.
    pub fn duplicate(&self) -> (t: Theme)
        ensures
            t@ == self@,
    {
        Theme { name: self.name.clone() }
    }
}

/// Whether two optional themes are equal.
pub fn same_theme(a: &Option<Theme>, b: &Option<Theme>) -> (r: bool)
    ensures
        r == (a.deep_view() == b.deep_view()),
{
    match (a, b) {
        (Some(x), Some(y)) => x.same_as(y),
        (None, None) => true,
        _ => false,
    }
}

/// A copy of an optional theme.
pub fn copy_theme(a: &Option<Theme>) -> (r: Option<Theme>)
    ensures
        r.deep_view() == a.deep_view(),
{
    match a {
        Some(t) => Some(t.duplicate()),
        None => None,
    }
}

/// Whether two optional strings are equal.
pub fn same_opt_str(a: &Option<String>, b: &Option<String>) -> (r: bool)
    ensures
        r == (a.deep_view() == b.deep_view()),
{
    match (a, b) {
        (Some(x), Some(y)) => *x == *y,
        (None, None) => true,
        _ => false,
    }
}

/// A copy of an optional string.
pub fn copy_opt_str(a: &Option<String>) -> (r: Option<String>)
    ensures
        r.deep_view() == a.deep_view(),
{
    match a {
        Some(s) => Some(s.clone()),
        None => None,
    }
}

} // verus!
