//! Regular-expression search, through the `regex` crate.
use vstd::prelude::*;
use vstd::string::StringSliceAdditionalSpecFns;

verus! {

/// The capture groups of the leftmost-first match of `pattern` in the text
/// whose UTF-8 bytes are `text` (group 0 the whole match, a group that took no
/// part empty), or `None` where the pattern does not compile or nothing
/// matches.
pub uninterp spec fn first_match(pattern: Seq<char>, text: Seq<u8>) -> Option<Seq<Seq<char>>>;

/// The capture groups of each successive non-overlapping match of `pattern`
/// in the text whose UTF-8 bytes are `text`, in order; empty where the pattern
/// does not compile.
pub uninterp spec fn all_matches(pattern: Seq<char>, text: Seq<u8>) -> Seq<Seq<Seq<char>>>;

/// The text of each string.
pub open spec fn texts(v: Seq<String>) -> Seq<Seq<char>> {
    v.map_values(|s: String| s@)
}

/// Relies on `regex::Regex::new` to compile `pattern` and on
/// `regex::Regex::captures` for the groups of the leftmost-first match.
#[verifier::external_body]
pub(crate) fn find_first(pattern: &str, text: &str) -> (r: Option<Vec<String>>)
    ensures
        r.is_some() == first_match(pattern@, text.spec_bytes()).is_some(),
        r.is_some() ==> texts(r.unwrap()@) == first_match(pattern@, text.spec_bytes()).unwrap(),
{
    let re = regex::Regex::new(pattern).ok()?;
    let caps = re.captures(text)?;
    Some(caps.iter().map(|m| m.map_or(String::new(), |m| m.as_str().to_string())).collect())
}

/// Relies on `regex::Regex::new` to compile `pattern` and on
/// `regex::Regex::captures_iter` for the groups of every match, in order.
#[verifier::external_body]
pub(crate) fn find_all(pattern: &str, text: &str) -> (r: Vec<Vec<String>>)
    ensures
        r@.len() == all_matches(pattern@, text.spec_bytes()).len(),
        forall|i: int|
            0 <= i < r@.len() ==> texts(#[trigger] r@[i]@) == all_matches(pattern@, text.spec_bytes())[i],
{
    match regex::Regex::new(pattern) {
        Ok(re) => re.captures_iter(text).map(|c| {
            c.iter().map(|m| m.map_or(String::new(), |m| m.as_str().to_string())).collect()
        }).collect(),
        Err(_) => Vec::new(),
    }
}

/// The text of the first named group (group 1) of the leftmost-first match
/// of `pattern` in the text with UTF-8 bytes `text`, if there is a match.
pub open spec fn first_group(pattern: Seq<char>, text: Seq<u8>) -> Option<Seq<char>> {
    let g = first_match(pattern, text);
    if g.is_some() && g.unwrap().len() >= 2 {
        Some(g.unwrap()[1])
    } else {
        None
    }
}

/// The text of group 1 of the first match of `pattern` in `text`.
pub fn find_group(pattern: &str, text: &str) -> (r: Option<String>)
    ensures
        r.is_some() == first_group(pattern@, text.spec_bytes()).is_some(),
        r.is_some() ==> r.unwrap()@ == first_group(pattern@, text.spec_bytes()).unwrap(),
{
    match find_first(pattern, text) {
        Some(g) => {
            if g.len() < 2 {
                return None;
            }
            let found = g[1].clone();
            Some(found)
        },
        None => None,
    }
}

} // verus!
