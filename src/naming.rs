use vstd::prelude::*;

use crate::text::{chars_vec, decimal, push_char, push_chars, push_decimal};

verus! {

/// What `Path::parent` gives on the path `p`.
pub uninterp spec fn parent_of(p: Seq<char>) -> Option<Seq<char>>;

/// What `Path::file_stem` gives on the path `p`.
pub uninterp spec fn file_stem_of(p: Seq<char>) -> Option<Seq<char>>;

/// What `Path::join` gives on the base `base` and the path `name`.
pub uninterp spec fn joined(base: Seq<char>, name: Seq<char>) -> Seq<char>;

/// Relies on std::path::Path::parent: the path without its final component,
/// if it has one.
#[verifier::external_body]
fn path_parent(p: &str) -> (r: Option<String>)
    ensures
        r is Some <==> parent_of(p@) is Some,
        r matches Some(q) ==> parent_of(p@) == Some(q@),
{
    std::path::Path::new(p).parent().map(|q| q.to_string_lossy().into_owned())
}

/// Relies on std::path::Path::file_stem: the final component without its
/// extension, if the path has a final component.
#[verifier::external_body]
fn path_file_stem(p: &str) -> (r: Option<String>)
    ensures
        r is Some <==> file_stem_of(p@) is Some,
        r matches Some(q) ==> file_stem_of(p@) == Some(q@),
{
    std::path::Path::new(p).file_stem().map(|q| q.to_string_lossy().into_owned())
}

/// Relies on std::path::Path::join: `name` placed under `base`.
#[verifier::external_body]
fn path_join(base: &str, name: &str) -> (r: String)
    ensures
        r@ == joined(base@, name@),
{
    std::path::Path::new(base).join(name).to_string_lossy().into_owned()
}

/// The directory part of `p`, empty when it has none.
pub open spec fn base_dir(p: Seq<char>) -> Seq<char> {
    match parent_of(p) {
        Some(d) => d,
        None => seq![],
    }
}

/// The file name of channel `core` for the stem `stem`:
/// `<stem>-core-<core>.txt`.
pub open spec fn core_name(stem: Seq<char>, core: nat) -> Seq<char> {
    stem + seq!['-', 'c', 'o', 'r', 'e', '-'] + decimal(core) + seq!['.', 't', 'x', 't']
}

/// The output file name of channel `core_num` for a file stem.
pub fn core_file_name(stem: &str, core_num: usize) -> (r: String)
    ensures
        r@ == core_name(stem@, core_num as nat),
{
    let cs = chars_vec(stem);
    let mut s = String::new();
    push_chars(&mut s, &cs);
    push_char(&mut s, '-');
    push_char(&mut s, 'c');
    push_char(&mut s, 'o');
    push_char(&mut s, 'r');
    push_char(&mut s, 'e');
    push_char(&mut s, '-');
    push_decimal(&mut s, core_num);
    push_char(&mut s, '.');
    push_char(&mut s, 't');
    push_char(&mut s, 'x');
    push_char(&mut s, 't');
    assert(s@ =~= core_name(stem@, core_num as nat));
    s
}

/// The path of the output file of channel `core_num`: beside `orig_path`,
/// named after its stem. `None` when `orig_path` names no file.
pub fn get_new_fname(orig_path: &str, core_num: usize) -> (r: Option<String>)
    ensures
        r is Some <==> file_stem_of(orig_path@) is Some,
        r matches Some(q) ==> q@ == joined(
            base_dir(orig_path@),
            core_name(file_stem_of(orig_path@)->0, core_num as nat),
        ),
{
    let base = match path_parent(orig_path) {
        Some(d) => d,
        None => String::new(),
    };
    match path_file_stem(orig_path) {
        Some(stem) => {
            let name = core_file_name(stem.as_str(), core_num);
            Some(path_join(base.as_str(), name.as_str()))
        },
        None => None,
    }
}

} // verus!
