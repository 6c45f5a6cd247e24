//! Paths, which are read by the components that slashes separate.

use vstd::prelude::*;

use crate::spec::text as st;
use crate::spec::text::Text;

verus! {

/// The last index before `j` at which `c` stands.
pub open spec fn last_char(s: Text, c: char, j: int) -> Option<int>
    decreases j,
{
    if j <= 0 {
        None
    } else if s[j - 1] == c {
        Some(j - 1)
    } else {
        last_char(s, c, j - 1)
    }
}

/// Whether a path starts at the root.
pub open spec fn is_absolute(path: Text) -> bool {
    st::starts_with_char(path, '/')
}

/// The parts from `i` on that are components, behind `out`: those that are not
/// empty, and a `.` only where it comes first.
pub open spec fn components_from(parts: Seq<Text>, i: int, out: Seq<Text>) -> Seq<Text>
    decreases parts.len() - i,
{
    if i >= parts.len() {
        out
    } else {
        components_from(
            parts,
            i + 1,
            if parts[i].len() == 0 || (parts[i] == "."@ && i > 0) {
                out
            } else {
                out.push(parts[i])
            },
        )
    }
}

/// The components of a path. The root is one, written as a slash.
pub open spec fn components(path: Text) -> Seq<Text> {
    components_from(
        st::split_char(path, '/'),
        0,
        if is_absolute(path) {
            seq!["/"@]
        } else {
            Seq::empty()
        },
    )
}

/// Whether two texts are the same path.
pub open spec fn same_path(a: Text, b: Text) -> bool {
    components(a) == components(b)
}

/// Whether a path is in a list.
pub open spec fn holds_path(list: Seq<Text>, path: Text) -> bool {
    exists|k: int| 0 <= k < list.len() && same_path(#[trigger] list[k], path)
}

/// The path that components make up.
pub open spec fn path_of(parts: Seq<Text>) -> Text {
    if parts.len() > 0 && parts[0] == "/"@ {
        "/"@ + st::join(parts.skip(1), "/"@)
    } else {
        st::join(parts, "/"@)
    }
}

/// The directory of a path. The root and the empty path have none.
pub open spec fn parent(path: Text) -> Option<Text> {
    let parts = components(path);
    if parts.len() == 0 || parts.last() == "/"@ {
        None
    } else {
        Some(path_of(parts.drop_last()))
    }
}

/// A path in a directory; an absolute one stands for itself.
pub open spec fn join(dir: Text, name: Text) -> Text {
    if is_absolute(name) || dir.len() == 0 {
        name
    } else if st::ends_with_char(dir, '/') {
        dir + name
    } else {
        dir + "/"@ + name
    }
}

/// The last component of a path, where it is a name.
pub open spec fn file_name(path: Text) -> Option<Text> {
    let parts = components(path);
    if parts.len() == 0 || parts.last() == "/"@ || parts.last() == "."@ || parts.last() == ".."@ {
        None
    } else {
        Some(parts.last())
    }
}

/// What follows the last dot of a name, unless the name starts with that dot.
pub open spec fn name_extension(name: Text) -> Option<Text> {
    match last_char(name, '.', name.len() as int) {
        Some(i) => if i == 0 {
            None
        } else {
            Some(name.skip(i + 1))
        },
        None => None,
    }
}

/// The extension of the file name of a path.
pub open spec fn extension(path: Text) -> Option<Text> {
    match file_name(path) {
        Some(name) => name_extension(name),
        None => None,
    }
}

/// Whether a directory or file name says that its sources are in free form.
pub open spec fn is_free_form_hint(part: Text) -> bool {
    st::same(part, "free-form"@) || st::same(part, "free_form"@) || st::same(part, "freeform"@)
}

pub open spec fn has_free_form_hint(path: Text) -> bool {
    exists|i: int|
        0 <= i < components(path).len() && is_free_form_hint(#[trigger] components(path)[i])
}

/// Whether an extension is one of sources in fixed form.
pub open spec fn is_fixed_extension(ext: Text) -> bool {
    ||| ext == "f"@
    ||| ext == "for"@
    ||| ext == "ftn"@
    ||| ext == "f77"@
    ||| ext == "F"@
    ||| ext == "FOR"@
    ||| ext == "FTN"@
    ||| ext == "F77"@
}

/// Whether a path is one of a source in fixed form.
pub open spec fn is_fixed_form_path(path: Text) -> bool {
    &&& !has_free_form_hint(path)
    &&& extension(path) matches Some(ext) && is_fixed_extension(ext)
}

// ---------------------------------------------------------------------------
// Facts
// ---------------------------------------------------------------------------

/// What stands behind the last slash.
pub open spec fn tail(path: Text) -> Text {
    match last_char(path, '/', path.len() as int) {
        Some(i) => path.skip(i + 1),
        None => path,
    }
}

proof fn lemma_last_char(s: Text, c: char, j: int)
    requires
        0 <= j <= s.len(),
    ensures
        match last_char(s, c, j) {
            Some(i) => 0 <= i < j && s[i] == c && forall|k: int| i < k < j ==> #[trigger] s[k] != c,
            None => forall|k: int| 0 <= k < j ==> #[trigger] s[k] != c,
        },
    decreases j,
{
    if j > 0 && s[j - 1] != c {
        lemma_last_char(s, c, j - 1);
    }
}

proof fn lemma_last_part(s: Text, c: char, start: int, i: int, out: Seq<Text>, last: int)
    requires
        0 <= start <= i <= s.len(),
        -1 <= last < s.len(),
        last >= 0 ==> s[last] == c,
        forall|k: int| last < k < s.len() ==> #[trigger] s[k] != c,
        last < i ==> start == last + 1,
    ensures
        st::split_char_from(s, c, start, i, out).len() > 0,
        st::split_char_from(s, c, start, i, out).last() == s.skip(last + 1),
    decreases s.len() - i,
{
    if i < s.len() {
        if s[i] == c {
            lemma_last_part(s, c, i + 1, i + 1, out.push(s.subrange(start, i)), last);
        } else {
            lemma_last_part(s, c, start, i + 1, out, last);
        }
    }
}

proof fn lemma_last_component(parts: Seq<Text>, i: int, out: Seq<Text>)
    requires
        0 <= i < parts.len(),
        parts.last().len() > 0,
        parts.last() != "."@,
    ensures
        components_from(parts, i, out).len() > 0,
        components_from(parts, i, out).last() == parts.last(),
    decreases parts.len() - i,
{
    let next = if parts[i].len() == 0 || (parts[i] == "."@ && i > 0) {
        out
    } else {
        out.push(parts[i])
    };
    if i + 1 < parts.len() {
        lemma_last_component(parts, i + 1, next);
    } else {
        reveal_with_fuel(components_from, 2);
    }
}

/// A name behind the last slash is the last component.
pub proof fn lemma_tail(path: Text)
    requires
        tail(path).len() > 0,
        tail(path) != "."@,
    ensures
        components(path).len() > 0,
        components(path).last() == tail(path),
{
    let last = match last_char(path, '/', path.len() as int) {
        Some(i) => i,
        None => -1,
    };
    lemma_last_char(path, '/', path.len() as int);
    lemma_last_part(path, '/', 0, 0, Seq::empty(), last);
    assert(path.skip(last + 1) =~= tail(path));
    lemma_last_component(
        st::split_char(path, '/'),
        0,
        if is_absolute(path) {
            seq!["/"@]
        } else {
            Seq::empty()
        },
    );
}

} // verus!
