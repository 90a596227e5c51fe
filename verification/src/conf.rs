//! Where the program keeps its configuration and its log.

use vstd::prelude::*;
use vstd::string::*;
use crate::text::concat;

verus! {

/// The name of the program, and of its configuration and cache directories.
pub const NAME: &'static str = "wayland_utils";

/// The program's settings (none yet).
#[derive(Debug, Clone)]
pub struct Conf {}

impl Conf {
    /// The settings.
    pub fn new() -> (c: Conf) {
        Conf {}
    }
}

/// `base` with `p` pushed onto it as a path: an absolute `p` replaces it,
/// otherwise a `/` separates the two unless `base` is empty or ends in one.
pub open spec fn push_path_spec(base: Seq<char>, p: Seq<char>) -> Seq<char> {
    if p.len() > 0 && p[0] == '/' {
        p
    } else if base.len() > 0 && base.last() != '/' {
        base + "/"@ + p
    } else {
        base + p
    }
}

/// `base` with `p` pushed onto it as a path.
pub fn push_path(base: &str, p: &str) -> (r: String)
    ensures
        r@ == push_path_spec(base@, p@),
{
    let n = p.unicode_len();
    if n > 0 && p.get_char(0) == '/' {
        return String::from_str(p);
    }
    let m = base.unicode_len();
    if m > 0 && base.get_char(m - 1) != '/' {
        let mut r = String::from_str(base);
        r.append("/");
        r.append(p);
        r
    } else {
        concat(base, p)
    }
}

/// The program's directory under the cache directory `cache_home`.
pub fn cache_dir(cache_home: &str) -> (r: String)
    ensures
        r@ == push_path_spec(cache_home@, NAME@),
{
    push_path(cache_home, NAME)
}

/// The program's directory under the configuration directory `config_home`.
pub fn config_dir(config_home: &str) -> (r: String)
    ensures
        r@ == push_path_spec(config_home@, NAME@),
{
    push_path(config_home, NAME)
}

/// The log file: `<NAME>.log` in the program's cache directory.
pub fn default_log_file(cache_home: &str) -> (r: String)
    ensures
        r@ == push_path_spec(push_path_spec(cache_home@, NAME@), NAME@ + ".log"@),
{
    let dir = cache_dir(cache_home);
    let file = concat(NAME, ".log");
    push_path(dir.as_str(), file.as_str())
}

/// The configuration file: `config.toml` in the program's configuration
/// directory.
pub fn default_config_file(config_home: &str) -> (r: String)
    ensures
        r@ == push_path_spec(push_path_spec(config_home@, NAME@), "config.toml"@),
{
    let dir = config_dir(config_home);
    push_path(dir.as_str(), "config.toml")
}

/// The log file to use: the one given, else the default one.
pub fn initialize_log_file(specified_file: Option<String>, cache_home: &str) -> (r: String)
    ensures
        specified_file matches Some(f) ==> r == f,
        specified_file is None ==> r@ == push_path_spec(push_path_spec(cache_home@, NAME@), NAME@ + ".log"@),
{
    match specified_file {
        Some(f) => f,
        None => default_log_file(cache_home),
    }
}

/// The configuration file to use: the one given, else the default one.
pub fn initialize_config_file(specified_file: Option<String>, config_home: &str) -> (r: String)
    ensures
        specified_file matches Some(f) ==> r == f,
        specified_file is None ==> r@ == push_path_spec(push_path_spec(config_home@, NAME@), "config.toml"@),
{
    match specified_file {
        Some(f) => f,
        None => default_config_file(config_home),
    }
}

/// A choice made once: the value already chosen stays, else `v` is chosen.
pub open spec fn chosen_once(cell: Option<Seq<char>>, v: Seq<char>) -> Option<Seq<char>> {
    match cell {
        Some(x) => Some(x),
        None => Some(v),
    }
}

/// The log file and the configuration file chosen for this run, each chosen
/// at most once.
#[derive(Debug)]
pub struct FileChoice {
    pub log_file: Option<String>,
    pub config_file: Option<String>,
}

impl FileChoice {
    /// Nothing chosen yet.
    pub fn new() -> (c: FileChoice)
        ensures
            c.log_file is None,
            c.config_file is None,
    {
        FileChoice { log_file: None, config_file: None }
    }

    /// Chooses `file` as the log file unless one is chosen already, in which
    /// case `file` is handed back as the error.
    pub fn set_log_file(&mut self, file: String) -> (r: Result<(), String>)
        ensures
            final(self).log_file.deep_view() == chosen_once(old(self).log_file.deep_view(), file@),
            final(self).config_file == old(self).config_file,
            r is Ok <==> old(self).log_file is None,
            r matches Err(x) ==> x == file,
    {
        if self.log_file.is_some() {
            Err(file)
        } else {
            self.log_file = Some(file);
            Ok(())
        }
    }

    /// Chooses `file` as the configuration file unless one is chosen
    /// already, in which case `file` is handed back as the error.
    pub fn set_config_file(&mut self, file: String) -> (r: Result<(), String>)
        ensures
            final(self).config_file.deep_view() == chosen_once(old(self).config_file.deep_view(), file@),
            final(self).log_file == old(self).log_file,
            r is Ok <==> old(self).config_file is None,
            r matches Err(x) ==> x == file,
    {
        if self.config_file.is_some() {
            Err(file)
        } else {
            self.config_file = Some(file);
            Ok(())
        }
    }
}

/// The first choice wins: once a file is chosen, later choices leave it.
pub proof fn law_first_choice_wins(cell: Option<Seq<char>>, first: Seq<char>, later: Seq<char>)
    ensures
        chosen_once(None, first) == Some(first),
        chosen_once(chosen_once(cell, first), later) == chosen_once(cell, first),
{
}

} // verus!
