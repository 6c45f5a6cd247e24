//! Paths, which are read by the components that slashes separate.

use vstd::prelude::*;
use vstd::slice::slice_subrange;

use crate::list::{empty, put};
use crate::spec::path as sh;
use crate::spec::text as st;
use crate::text::{
    chars, ends_with_char, eq_texts, is_word, join, owned, push_text, same_word, skip,
    split_char, starts_with_char, text,
};

verus! {

/// The last index at which `c` stands.
fn last_char(s: &[char], c: char) -> (r: Option<usize>)
    ensures
        st::at(r) == sh::last_char(s@, c, s@.len() as int),
        r matches Some(i) ==> i < s@.len(),
{
    let mut j: usize = s.len();
    while j > 0
        invariant
            j <= s@.len(),
            sh::last_char(s@, c, s@.len() as int) == sh::last_char(s@, c, j as int),
        decreases j,
    {
        if s[j - 1] == c {
            return Some(j - 1);
        }
        j = j - 1;
    }
    None
}

/// Whether a path starts at the root.
pub fn is_absolute(path: &str) -> (r: bool)
    ensures
        r == sh::is_absolute(path@),
{
    let p = chars(path);
    starts_with_char(p.as_slice(), '/')
}

/// The components of a path: what slashes separate, but for empty parts and for
/// a `.` that does not come first. The root is a component, written as a slash.
pub fn components(path: &str) -> (r: Vec<String>)
    ensures
        r.deep_view() == sh::components(path@),
{
    let all = chars(path);
    let parts = split_char(all.as_slice(), '/');
    let mut out: Vec<String> = empty();
    if is_absolute(path) {
        put(&mut out, owned("/"));
    }
    assert(out.deep_view() =~= if sh::is_absolute(path@) {
        seq!["/"@]
    } else {
        Seq::empty()
    });
    let mut i: usize = 0;
    while i < parts.len()
        invariant
            i <= parts@.len(),
            parts.deep_view() == st::split_char(path@, '/'),
            sh::components(path@) == sh::components_from(
                parts.deep_view(),
                i as int,
                out.deep_view(),
            ),
        decreases parts@.len() - i,
    {
        let part = chars(parts[i].as_str());
        assert(part@ == parts.deep_view()[i as int]);
        if part.len() > 0 && (i == 0 || !is_word(part.as_slice(), ".")) {
            put(&mut out, parts[i].clone());
        }
        i = i + 1;
    }
    out
}

/// Whether a path has the given components. Most paths that have not end in
/// another name.
pub fn has_components(path: &str, wanted: &Vec<String>) -> (r: bool)
    ensures
        r == (sh::components(path@) == wanted.deep_view()),
{
    let all = chars(path);
    let len: usize = all.len();
    let tail = match last_char(all.as_slice(), '/') {
        Some(i) => skip(all.as_slice(), i + 1),
        None => all.as_slice(),
    };
    let n: usize = wanted.len();
    if tail.len() > 0 && !is_word(tail, ".") {
        proof {
            sh::lemma_tail(path@);
        }
        if n == 0 {
            return false;
        }
        assert(wanted.deep_view()[n - 1] == wanted@[n - 1]@);
        if !is_word(tail, wanted[n - 1].as_str()) {
            return false;
        }
    }
    eq_texts(&components(path), wanted)
}

/// Whether two texts are the same path: whether they have the same components.
pub fn same_path(a: &str, b: &str) -> (r: bool)
    ensures
        r == sh::same_path(a@, b@),
{
    has_components(a, &components(b))
}

/// Whether a path is in a list.
pub fn holds_path(list: &Vec<String>, path: &str) -> (r: bool)
    ensures
        r == sh::holds_path(list.deep_view(), path@),
{
    let ghost all = list.deep_view();
    let wanted = components(path);
    let mut i: usize = 0;
    while i < list.len()
        invariant
            i <= list@.len(),
            all == list.deep_view(),
            wanted.deep_view() == sh::components(path@),
            forall|k: int| 0 <= k < i ==> !sh::same_path(#[trigger] all[k], path@),
        decreases list@.len() - i,
    {
        assert(all[i as int] == list@[i as int]@);
        if has_components(list[i].as_str(), &wanted) {
            return true;
        }
        i = i + 1;
    }
    false
}

fn is_component(part: &String, wanted: &str) -> (r: bool)
    ensures
        r == (part@ == wanted@),
{
    let p = chars(part.as_str());
    is_word(p.as_slice(), wanted)
}

/// The directory of a path. The root and the empty path have none.
pub fn parent(path: &str) -> (r: Option<String>)
    ensures
        r.deep_view() == sh::parent(path@),
{
    let parts = components(path);
    let n: usize = parts.len();
    if n == 0 || is_component(&parts[n - 1], "/") {
        return None;
    }
    let ghost rest = sh::components(path@).drop_last();
    assert(parts.deep_view()[n - 1] == parts@[n - 1]@);
    if n > 1 && is_component(&parts[0], "/") {
        assert(parts.deep_view()[0] == parts@[0]@);
        let mut out = owned("/");
        let dirs = slice_subrange(parts.as_slice(), 1, n - 1);
        assert(dirs.deep_view() =~= rest.skip(1));
        push_text(&mut out, join(dirs, "/").as_str());
        Some(out)
    } else {
        assert(parts.deep_view()[0] == parts@[0]@);
        let dirs = slice_subrange(parts.as_slice(), 0, n - 1);
        assert(dirs.deep_view() =~= rest);
        Some(join(dirs, "/"))
    }
}

/// A path in a directory; an absolute one stands for itself.
pub fn join_path(dir: &str, name: &str) -> (r: String)
    ensures
        r@ == sh::join(dir@, name@),
{
    let d = chars(dir);
    if is_absolute(name) || d.len() == 0 {
        return owned(name);
    }
    let mut out = owned(dir);
    if !ends_with_char(d.as_slice(), '/') {
        push_text(&mut out, "/");
    }
    push_text(&mut out, name);
    out
}

/// The last component of a path, where it is a name.
fn file_name(path: &str) -> (r: Option<String>)
    ensures
        r.deep_view() == sh::file_name(path@),
{
    let parts = components(path);
    let n: usize = parts.len();
    if n == 0 {
        return None;
    }
    let last = &parts[n - 1];
    assert(last@ == parts.deep_view()[n - 1]);
    if is_component(last, "/") || is_component(last, ".") || is_component(last, "..") {
        None
    } else {
        Some(last.clone())
    }
}

/// What follows the last dot of the file name of a path, unless the name starts
/// with that dot.
pub fn extension(path: &str) -> (r: Option<String>)
    ensures
        r.deep_view() == sh::extension(path@),
{
    match file_name(path) {
        Some(name) => {
            let all = chars(name.as_str());
            let n: usize = all.len();
            match last_char(all.as_slice(), '.') {
                Some(i) => if i == 0 {
                    None
                } else {
                    Some(text(skip(all.as_slice(), i + 1)))
                },
                None => None,
            }
        },
        None => None,
    }
}

/// Whether a directory or file name says that its sources are in free form.
fn is_free_form_hint(part: &[char]) -> (r: bool)
    ensures
        r == sh::is_free_form_hint(part@),
{
    same_word(part, "free-form") || same_word(part, "free_form") || same_word(part, "freeform")
}

/// Whether a component of a path says that its sources are in free form.
pub fn has_free_form_hint(path: &str) -> (r: bool)
    ensures
        r == sh::has_free_form_hint(path@),
{
    let parts = components(path);
    let mut i: usize = 0;
    while i < parts.len()
        invariant
            i <= parts@.len(),
            parts.deep_view() == sh::components(path@),
            forall|k: int|
                0 <= k < i ==> !sh::is_free_form_hint(#[trigger] sh::components(path@)[k]),
        decreases parts@.len() - i,
    {
        let part = chars(parts[i].as_str());
        assert(part@ == sh::components(path@)[i as int]);
        if is_free_form_hint(part.as_slice()) {
            return true;
        }
        i = i + 1;
    }
    false
}

/// Whether an extension is one of sources in fixed form.
fn is_fixed_extension(ext: &str) -> (r: bool)
    ensures
        r == sh::is_fixed_extension(ext@),
{
    let e = chars(ext);
    let s = e.as_slice();
    is_word(s, "f") || is_word(s, "for") || is_word(s, "ftn") || is_word(s, "f77") || is_word(
        s,
        "F",
    ) || is_word(s, "FOR") || is_word(s, "FTN") || is_word(s, "F77")
}

/// Whether a path is one of a source in fixed form.
pub fn is_fixed_form_path(path: &str) -> (r: bool)
    ensures
        r == sh::is_fixed_form_path(path@),
{
    if has_free_form_hint(path) {
        return false;
    }
    match extension(path) {
        Some(ext) => is_fixed_extension(ext.as_str()),
        None => false,
    }
}

} // verus!
