//! Renaming the files of a directory by a regular expression.
//!
//! The caller lists the directory and hands in the names of its files.
//! [`run`] says which of them get a new name, and which one; the caller then
//! renames them.

use crate::indexed::positions;
use vstd::prelude::*;

verus! {

/// The error that the `regex` crate reports for a pattern it does not accept.
#[verifier::external_type_specification]
#[verifier::external_body]
pub struct ExRegexError(regex::Error);

/// Whether `regex::Regex::new` accepts `pattern`, with the limits that the
/// crate sets by default.
pub uninterp spec fn regex_compiles(pattern: Seq<char>) -> bool;

/// Whether the regular expression `pattern` matches anywhere in `text`, as
/// `regex::Regex::is_match` reports it.
pub uninterp spec fn regex_is_match(pattern: Seq<char>, text: Seq<char>) -> bool;

/// `text` after every match of the regular expression `pattern` in it has been
/// replaced by `replacement`, in which `$1`, `${name}` and the like stand for
/// what the groups captured, as `regex::Regex::replace_all` returns it.
pub uninterp spec fn regex_replace_all(
    pattern: Seq<char>,
    text: Seq<char>,
    replacement: Seq<char>,
) -> Seq<char>;

/// Compiles `pattern` once with `regex::Regex::new` and asks
/// `regex::Regex::is_match` about each text in turn.
///
/// Claimed of the crate: compiling fails on exactly the patterns that it does
/// not accept, and whether a compiled pattern matches a text depends on the
/// pattern and the text alone.
#[verifier::external_body]
fn match_each(pattern: &str, texts: &Vec<String>) -> (r: Result<Vec<bool>, regex::Error>)
    ensures
        r is Ok <==> regex_compiles(pattern@),
        r matches Ok(found) ==> found.len() == texts.len() && forall|i: int|
            0 <= i < texts.len() ==> #[trigger] found[i] == regex_is_match(pattern@, texts[i]@),
{
    let re = regex::Regex::new(pattern)?;
    Ok(texts.iter().map(|text| re.is_match(text)).collect())
}

/// Compiles `pattern` once with `regex::Regex::new` and hands each text in
/// turn to `regex::Regex::replace_all`.
///
/// Claimed of the crate: compiling fails on exactly the patterns that it does
/// not accept, and what comes out of a replacement depends on the pattern,
/// the text and the replacement alone.
#[verifier::external_body]
fn replace_each(pattern: &str, texts: &Vec<String>, replacement: &str) -> (r: Result<
    Vec<String>,
    regex::Error,
>)
    ensures
        r is Ok <==> regex_compiles(pattern@),
        r matches Ok(replaced) ==> replaced.len() == texts.len() && forall|i: int|
            0 <= i < texts.len() ==> #[trigger] replaced[i]@ == regex_replace_all(
                pattern@,
                texts[i]@,
                replacement@,
            ),
{
    let re = regex::Regex::new(pattern)?;
    Ok(texts.iter().map(|text| re.replace_all(text, replacement).into_owned()).collect())
}

/// The message of a `regex::Error`, as its `Display` writes it. Nothing is
/// claimed of the text.
#[verifier::external_body]
fn error_message(error: &regex::Error) -> (message: String) {
    error.to_string()
}

/// One file that gets a new name.
#[derive(Debug)]
pub struct Rename {
    /// The position of the file among the names handed in.
    pub file: usize,
    /// Its new name, in the same directory.
    pub to: String,
}

/// A [`Rename`] as a plain value.
pub struct RenameView {
    pub file: int,
    pub to: Seq<char>,
}

impl View for Rename {
    type V = RenameView;

    open spec fn view(&self) -> RenameView {
        RenameView { file: self.file as int, to: self.to@ }
    }
}

impl DeepView for Rename {
    type V = RenameView;

    open spec fn deep_view(&self) -> RenameView {
        self@
    }
}

/// Why nothing is renamed.
#[derive(Debug)]
pub enum RenameError {
    /// The pattern is no regular expression; the text says why.
    InvalidPattern(String),
}

/// For a position, the rename of the file there, or `None` where the pattern
/// did not match its name, or where no new name is given for it.
pub open spec fn rename_at(found: Seq<bool>, replaced: Seq<Seq<char>>) -> spec_fn(int) -> Option<
    RenameView,
> {
    |i: int|
        if found[i] && i < replaced.len() {
            Some(RenameView { file: i, to: replaced[i] })
        } else {
            None
        }
}

/// The renames that follow from what the pattern found in each name and what
/// each name became: one for each name that matched, in the order of the
/// names.
pub open spec fn renames_of(found: Seq<bool>, replaced: Seq<Seq<char>>) -> Seq<RenameView> {
    positions(found.len()).filter_map(rename_at(found, replaced))
}

/// The renames that a pattern and a replacement ask for among `names`: every
/// name in which the pattern matches is renamed to what the replacement makes
/// of it, and no other name is touched.
pub open spec fn renames(names: Seq<Seq<char>>, pattern: Seq<char>, replacement: Seq<char>) -> Seq<
    RenameView,
> {
    renames_of(
        names.map_values(|name: Seq<char>| regex_is_match(pattern, name)),
        names.map_values(|name: Seq<char>| regex_replace_all(pattern, name, replacement)),
    )
}

/// Lists the renames, given for each name whether the pattern matched it and
/// what the replacement made of it. A name for which `replaced` holds nothing
/// is not renamed.
pub fn plan(found: &Vec<bool>, replaced: &Vec<String>) -> (renames: Vec<Rename>)
    ensures
        renames.deep_view() == renames_of(found@, replaced.deep_view()),
{
    let ghost each = rename_at(found@, replaced.deep_view());
    let ghost all = positions(found@.len());
    let mut renames: Vec<Rename> = Vec::new();
    let mut i: usize = 0;
    assert(renames.deep_view() =~= all.take(0).filter_map(each));
    while i < found.len()
        invariant
            i <= found.len(),
            each == rename_at(found@, replaced.deep_view()),
            all == positions(found@.len()),
            renames.deep_view() == all.take(i as int).filter_map(each),
        decreases found.len() - i,
    {
        proof {
            all.lemma_filter_map_take_succ(each, i as int);
        }
        if found[i] && i < replaced.len() {
            let ghost before = renames.deep_view();
            let rename = Rename { file: i, to: replaced[i].clone() };
            renames.push(rename);
            assert(renames.deep_view() =~= before + seq![rename@]);
        }
        i = i + 1;
    }
    assert(all.take(i as int) =~= all);
    renames
}

/// Works out which of `names` get a new name.
///
/// Fails, with nothing to rename, exactly when `pattern` is not a regular
/// expression that the `regex` crate accepts. Otherwise every name in which
/// the pattern matches is paired with the name that the replacement gives it.
pub fn run(names: &Vec<String>, pattern: &str, replace: &str) -> (r: Result<
    Vec<Rename>,
    RenameError,
>)
    ensures
        r is Ok <==> regex_compiles(pattern@),
        r matches Ok(plan) ==> plan.deep_view() == renames(names.deep_view(), pattern@, replace@),
{
    let found = match match_each(pattern, names) {
        Ok(found) => found,
        Err(e) => {
            return Err(RenameError::InvalidPattern(error_message(&e)));
        },
    };
    let replaced = match replace_each(pattern, names, replace) {
        Ok(replaced) => replaced,
        Err(e) => {
            return Err(RenameError::InvalidPattern(error_message(&e)));
        },
    };
    proof {
        let texts = names.deep_view();
        assert(found@ =~= texts.map_values(|name: Seq<char>| regex_is_match(pattern@, name)));
        assert(replaced.deep_view() =~= texts.map_values(
            |name: Seq<char>| regex_replace_all(pattern@, name, replace@),
        ));
    }
    Ok(plan(&found, &replaced))
}

} // verus!
