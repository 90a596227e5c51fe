//! The theme settings of the program.

use vstd::prelude::*;

verus! {

/// The chosen theme.
#[derive(Debug, Clone)]
pub struct ThemeConfig {
    pub theme: String,
}

/// A theme with the file that defines it and the applications it covers.
#[derive(Debug, Clone)]
pub struct Theme {
    pub theme: String,
    pub file: String,
    pub applications: Option<Vec<String>>,
}

impl Theme {
    /// The theme `theme` defined in `file`, for no particular application.
    pub fn new(theme: String, file: String) -> (t: Theme)
        ensures
            t.theme == theme,
            t.file == file,
            t.applications is None,
    {
        Theme { theme, file, applications: None }
    }
}

/// The list of themes, if any.
#[derive(Debug, Clone)]
pub struct ThemeLixt {
    pub theme: Option<Vec<String>>,
}

} // verus!
