//! Matching strings against regular expressions, with the `regex` crate.

use crate::models::error::{Error, Result};
use regex::Regex;
use vstd::prelude::*;

verus! {

/// The compiled regular expressions of the `regex` crate.
#[verifier::external_type_specification]
#[verifier::external_body]
pub struct ExRegex(regex::Regex);

/// Whether `regex` compiles the pattern.
pub uninterp spec fn regex_compiles(pattern: Seq<char>) -> bool;

/// Whether the compiled pattern matches somewhere in the haystack.
pub uninterp spec fn regex_finds(pattern: Seq<char>, haystack: Seq<char>) -> bool;

/// The names of the capture groups of the compiled pattern, in order,
/// `None` for a group without a name (the first, the whole match, has none).
pub uninterp spec fn regex_group_names(pattern: Seq<char>) -> Seq<Option<Seq<char>>>;

/// The text that the group of that name matched, in the first match of
/// the compiled pattern in the haystack, where the group took part in it.
pub uninterp spec fn regex_named_match(pattern: Seq<char>, haystack: Seq<char>, name: Seq<char>) -> Option<Seq<char>>;

/// A pattern and the `Regex` that `regex` compiled from it.
pub struct CompiledRegex {
    pattern: String,
    regex: Regex,
}

impl View for CompiledRegex {
    type V = Seq<char>;

    /// The pattern.
    closed spec fn view(&self) -> Seq<char> {
        self.pattern@
    }
}

/// `Regex::new` of `regex`: it compiles the pattern, or fails with the
/// error's text; whether it compiles depends on the pattern alone.
#[verifier::external_body]
fn regex_new(pattern: &str) -> (r: core::result::Result<Regex, String>)
    ensures
        r is Ok <==> regex_compiles(pattern@),
{
    Regex::new(pattern).map_err(|e| e.to_string())
}

/// `Regex::is_match` of `regex`: whether the pattern matches somewhere in
/// the haystack.
#[verifier::external_body]
fn regex_is_match(re: &CompiledRegex, haystack: &str) -> (r: bool)
    ensures
        r == regex_finds(re@, haystack@),
{
    re.regex.is_match(haystack)
}

/// `Regex::captures` of `regex`, told by whether it found a match: its
/// documentation says that it gives `None` exactly where there is none.
#[verifier::external_body]
fn regex_has_captures(re: &CompiledRegex, haystack: &str) -> (r: bool)
    ensures
        r == regex_finds(re@, haystack@),
{
    re.regex.captures(haystack).is_some()
}

/// `Regex::capture_names` of `regex`: the names of the capture groups, in
/// order.
#[verifier::external_body]
fn regex_capture_names(re: &CompiledRegex) -> (r: Vec<Option<String>>)
    ensures
        r@.map_values(|n: Option<String>| match n {
            Some(s) => Some(s@),
            None => None,
        }) == regex_group_names(re@),
{
    re.regex.capture_names().map(|n| n.map(|s| s.to_string())).collect()
}

/// `Captures::name` of `regex`, on the captures of the first match: the
/// text that the group of that name matched, where it took part in it.
#[verifier::external_body]
fn regex_capture_named(re: &CompiledRegex, haystack: &str, name: &str) -> (r: Option<String>)
    ensures
        match r {
            Some(s) => regex_named_match(re@, haystack@, name@) == Some(s@),
            None => regex_named_match(re@, haystack@, name@) is None,
        },
{
    re.regex.captures(haystack).and_then(|caps| caps.name(name).map(|m| m.as_str().to_string()))
}

impl CompiledRegex {
    /// Compiles a pattern.
    pub fn new(pattern: &str) -> (r: Result<CompiledRegex>)
        ensures
            match r {
                Ok(re) => regex_compiles(pattern@) && re@ == pattern@,
                Err(e) => !regex_compiles(pattern@) && e is Regex,
            },
    {
        match regex_new(pattern) {
            Ok(regex) => Ok(CompiledRegex { pattern: pattern.to_string(), regex }),
            Err(msg) => Err(Error::Regex { msg }),
        }
    }
}

/// The pairs of the names of the groups and the texts they matched, or
/// the empty text, in the order of the groups; groups without a name are
/// left out.
pub open spec fn named_captures(pattern: Seq<char>, haystack: Seq<char>, names: Seq<Option<Seq<char>>>) -> Seq<(Seq<char>, Seq<char>)>
    decreases names.len(),
{
    if names.len() == 0 {
        Seq::empty()
    } else {
        let rest = named_captures(pattern, haystack, names.drop_last());
        match names.last() {
            Some(key) => rest.push(
                (
                    key,
                    match regex_named_match(pattern, haystack, key) {
                        Some(v) => v,
                        None => Seq::empty(),
                    },
                ),
            ),
            None => rest,
        }
    }
}

/// The text pairs of a sequence of pairs of strings.
pub open spec fn pairs_view(v: Seq<(String, String)>) -> Seq<(Seq<char>, Seq<char>)> {
    v.map_values(|p: (String, String)| (p.0@, p.1@))
}

/// `is_match` returns if the target string matches the regex pattern.
pub fn is_match(pattern: &str, target: &str) -> (r: Result<bool>)
    ensures
        match r {
            Ok(b) => regex_compiles(pattern@) && b == regex_finds(pattern@, target@),
            Err(e) => !regex_compiles(pattern@) && e is Regex,
        },
{
    let reg = CompiledRegex::new(pattern)?;
    Ok(regex_is_match(&reg, target))
}

/// `captures` returns the regex captures obtained from the target string
/// against the regex pattern: each named group with the text it matched,
/// or the empty text, in the order of the groups. A target that does not
/// match is a `NoRegexMatch`.
pub fn captures(pattern: &str, target: &str) -> (r: Result<Vec<(String, String)>>)
    ensures
        match r {
            Ok(res) => regex_compiles(pattern@) && regex_finds(pattern@, target@) && pairs_view(res@) == named_captures(
                pattern@,
                target@,
                regex_group_names(pattern@),
            ),
            Err(e) => if !regex_compiles(pattern@) {
                e is Regex
            } else {
                e is NoRegexMatch && !regex_finds(pattern@, target@)
            },
        },
{
    let reg = CompiledRegex::new(pattern)?;
    if !regex_is_match(&reg, target) {
        return Err(Error::NoRegexMatch);
    }
    let mut res: Vec<(String, String)> = Vec::new();
    if !regex_has_captures(&reg, target) {
        return Ok(res);
    }
    let names = regex_capture_names(&reg);
    let ghost all = regex_group_names(pattern@);
    let mut i: usize = 0;
    assert(names@.take(0).map_values(|n: Option<String>| match n {
        Some(s) => Some(s@),
        None => None,
    }) =~= all.take(0));
    while i < names.len()
        invariant
            i <= names@.len(),
            reg@ == pattern@,
            all == regex_group_names(pattern@),
            names@.map_values(|n: Option<String>| match n {
                Some(s) => Some(s@),
                None => None,
            }) == all,
            pairs_view(res@) == named_captures(pattern@, target@, all.take(i as int)),
        decreases names@.len() - i,
    {
        proof {
            assert(all.take(i + 1).drop_last() =~= all.take(i as int));
            assert(all[i as int] == match names@[i as int] {
                Some(s) => Some(s@),
                None => None::<Seq<char>>,
            });
        }
        if let Some(key) = &names[i] {
            let value = match regex_capture_named(&reg, target, key.as_str()) {
                Some(v) => v,
                None => String::new(),
            };
            let ghost before = res@;
            res.push((key.clone(), value));
            proof {
                assert(res@ =~= before.push(res@[before.len() as int]));
                assert(pairs_view(res@) =~= pairs_view(before).push(pairs_view(res@)[before.len() as int]));
            }
        }
        i += 1;
    }
    assert(all.take(names@.len() as int) =~= all);
    Ok(res)
}

} // verus!
