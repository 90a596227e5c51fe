//! Reading a map of strings from a file: the format follows the extension.

use vstd::prelude::*;
use vstd::string::*;
use std::collections::BTreeMap;
use crate::keyed::KeyedMap;
use crate::parser::StringMap;
use crate::pathname::{extension_of_name, std_extension_of, std_file_name};
use crate::text::{concat, eq_str, is_err_with};

verus! {

/// The formats a map file may be written in.
#[derive(Debug, Clone, Copy, PartialEq, Eq, Structural)]
pub enum MapFormat {
    Toml,
    Json,
    Ron,
}

/// The format of a map file at `path` (already expanded) of which the file
/// system says whether it is a file: TOML, JSON or RON by the extension
/// `toml`, `json` or `ron`; an error for a path that is no file
/// ("<path> is not a file") or for any other extension
/// ("Unsupported file extension | <extension>"). `None` for a file without
/// extension, which cannot be read.
pub fn map_format(path: &str, is_file: bool) -> (r: Option<Result<MapFormat, String>>)
    ensures
        !is_file ==> (r matches Some(x) && is_err_with(x, path@ + " is not a file"@)),
        is_file && extension_of_name(std_file_name(path@)) is None ==> r is None,
        is_file && extension_of_name(std_file_name(path@)) is Some ==> r is Some && {
            let ext = extension_of_name(std_file_name(path@)).unwrap();
            let x = r.unwrap();
            &&& ext == "toml"@ ==> x == Ok::<MapFormat, String>(MapFormat::Toml)
            &&& ext == "json"@ ==> x == Ok::<MapFormat, String>(MapFormat::Json)
            &&& ext == "ron"@ ==> x == Ok::<MapFormat, String>(MapFormat::Ron)
            &&& (ext != "toml"@ && ext != "json"@ && ext != "ron"@) ==> is_err_with(
                x,
                "Unsupported file extension | "@ + ext,
            )
        },
{
    if !is_file {
        return Some(Err(concat(path, " is not a file")));
    }
    let ext = match std_extension_of(path) {
        Some(e) => e,
        None => return None,
    };
    proof {
        reveal_strlit("toml");
        reveal_strlit("json");
        reveal_strlit("ron");
        assert("toml"@[0] != "json"@[0]);
        assert("toml"@[0] != "ron"@[0]);
        assert("json"@[0] != "ron"@[0]);
    }
    if eq_str(ext.as_str(), "toml") {
        Some(Ok(MapFormat::Toml))
    } else if eq_str(ext.as_str(), "json") {
        Some(Ok(MapFormat::Json))
    } else if eq_str(ext.as_str(), "ron") {
        Some(Ok(MapFormat::Ron))
    } else {
        Some(Err(concat("Unsupported file extension | ", ext.as_str())))
    }
}

/// The pairs that `toml::from_str` reads from a text as a map of strings,
/// in key order, or the message of its error.
pub uninterp spec fn toml_string_pairs(text: Seq<char>) -> Result<Seq<(Seq<char>, Seq<char>)>, Seq<char>>;

/// The pairs that `serde_json::from_str` reads from a text as a map of
/// strings, in key order, or the message of its error.
pub uninterp spec fn json_string_pairs(text: Seq<char>) -> Result<Seq<(Seq<char>, Seq<char>)>, Seq<char>>;

/// The pairs that `ron::from_str` reads from a text as a map of strings, in
/// key order, or the message of its error.
pub uninterp spec fn ron_string_pairs(text: Seq<char>) -> Result<Seq<(Seq<char>, Seq<char>)>, Seq<char>>;

/// The pairs of strings, each taken by its view.
pub open spec fn pairs_view(v: Seq<(String, String)>) -> Seq<(Seq<char>, Seq<char>)> {
    v.map_values(|p: (String, String)| (p.0@, p.1@))
}

/// The model of what a reader gives: the pairs or the message.
pub open spec fn read_view(r: Result<Vec<(String, String)>, String>) -> Result<Seq<(Seq<char>, Seq<char>)>, Seq<char>> {
    match r {
        Ok(v) => Ok(pairs_view(v@)),
        Err(e) => Err(e@),
    }
}

/// Reads a TOML text as a map of strings with `toml::from_str`, into a
/// `BTreeMap` so that the pairs come out in key order. The contract names
/// the outcome and says nothing more of the TOML format.
#[verifier::external_body]
fn toml_pairs(text: &str) -> (r: Result<Vec<(String, String)>, String>)
    ensures
        read_view(r) == toml_string_pairs(text@),
{
    match toml::from_str::<BTreeMap<String, String>>(text) {
        Ok(m) => Ok(m.into_iter().collect()),
        Err(e) => Err(e.to_string()),
    }
}

/// Reads a JSON text as a map of strings with `serde_json::from_str`, into a
/// `BTreeMap` so that the pairs come out in key order. The contract names
/// the outcome and says nothing more of the JSON format.
#[verifier::external_body]
fn json_pairs(text: &str) -> (r: Result<Vec<(String, String)>, String>)
    ensures
        read_view(r) == json_string_pairs(text@),
{
    match serde_json::from_str::<BTreeMap<String, String>>(text) {
        Ok(m) => Ok(m.into_iter().collect()),
        Err(e) => Err(e.to_string()),
    }
}

/// Reads a RON text as a map of strings with `ron::from_str`, into a
/// `BTreeMap` so that the pairs come out in key order. The contract names
/// the outcome and says nothing more of the RON format.
#[verifier::external_body]
fn ron_pairs(text: &str) -> (r: Result<Vec<(String, String)>, String>)
    ensures
        read_view(r) == ron_string_pairs(text@),
{
    match ron::from_str::<BTreeMap<String, String>>(text) {
        Ok(m) => Ok(m.into_iter().collect()),
        Err(e) => Err(e.to_string()),
    }
}

/// The map that pairs give when each is set in turn: a later pair of a key
/// wins.
pub open spec fn pairs_map(ps: Seq<(Seq<char>, Seq<char>)>) -> Map<Seq<char>, Seq<char>>
    decreases ps.len(),
{
    if ps.len() == 0 {
        Map::empty()
    } else {
        pairs_map(ps.drop_last()).insert(ps.last().0, ps.last().1)
    }
}

/// The map of the pairs, each set in turn.
pub fn map_of_pairs(pairs: Vec<(String, String)>) -> (m: StringMap)
    ensures
        m@ == pairs_map(pairs_view(pairs@)),
{
    let ghost all = pairs_view(pairs@);
    let mut m: StringMap = KeyedMap::new();
    let mut i: usize = 0;
    assert(all.take(0) =~= Seq::<(Seq<char>, Seq<char>)>::empty());
    while i < pairs.len()
        invariant
            i <= pairs@.len(),
            all == pairs_view(pairs@),
            m@ == pairs_map(all.take(i as int)),
        decreases pairs@.len() - i,
    {
        assert(all.take(i as int + 1).drop_last() =~= all.take(i as int));
        let k = pairs[i].0.clone();
        let v = pairs[i].1.clone();
        m.insert(k, v);
        i = i + 1;
    }
    assert(all.take(i as int) =~= all);
    m
}

/// The map that a reader's outcome gives, or its message.
pub open spec fn read_outcome(r: Result<Seq<(Seq<char>, Seq<char>)>, Seq<char>>) -> Result<Map<Seq<char>, Seq<char>>, Seq<char>> {
    match r {
        Ok(ps) => Ok(pairs_map(ps)),
        Err(e) => Err(e),
    }
}

/// The model of a map or a message.
pub open spec fn map_result_view(r: Result<StringMap, String>) -> Result<Map<Seq<char>, Seq<char>>, Seq<char>> {
    match r {
        Ok(m) => Ok(m@),
        Err(e) => Err(e@),
    }
}

fn to_map(r: Result<Vec<(String, String)>, String>) -> (m: Result<StringMap, String>)
    ensures
        map_result_view(m) == read_outcome(read_view(r)),
{
    match r {
        Ok(v) => Ok(map_of_pairs(v)),
        Err(e) => Err(e),
    }
}

/// The map of strings in a TOML text, or the message of why it is none.
pub fn toml_to_hashmap(text: &str) -> (m: Result<StringMap, String>)
    ensures
        map_result_view(m) == read_outcome(toml_string_pairs(text@)),
{
    to_map(toml_pairs(text))
}

/// The map of strings in a JSON text, or the message of why it is none.
pub fn json_to_hashmap(text: &str) -> (m: Result<StringMap, String>)
    ensures
        map_result_view(m) == read_outcome(json_string_pairs(text@)),
{
    to_map(json_pairs(text))
}

/// The map of strings in a RON text, or the message of why it is none.
pub fn ron_to_hashmap(text: &str) -> (m: Result<StringMap, String>)
    ensures
        map_result_view(m) == read_outcome(ron_string_pairs(text@)),
{
    to_map(ron_pairs(text))
}

} // verus!
