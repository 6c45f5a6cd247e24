//! Paths and their components.

use vstd::prelude::*;

use crate::spec::path as sh;
use crate::spec::text as st;
use crate::spec::text::Text;

verus! {

/// Whether a text holds no slash.
pub open spec fn has_no_slash(s: Text) -> bool {
    forall|i: int| 0 <= i < s.len() ==> #[trigger] s[i] != '/'
}

/// Whether a list is one of components: a slash comes first if at all, and so
/// does a `.`; the others hold something and no slash.
pub open spec fn are_components(parts: Seq<Text>) -> bool {
    forall|i: int| 0 <= i < parts.len() ==> is_component(#[trigger] parts[i], i)
}

pub open spec fn is_component(part: Text, i: int) -> bool {
    ||| i == 0 && part == "/"@
    ||| part.len() > 0 && has_no_slash(part) && (part == "."@ ==> i == 0)
}

proof fn lemma_split(s: Text, start: int, i: int, out: Seq<Text>)
    requires
        0 <= start <= i <= s.len(),
        has_no_slash(s.subrange(start, i)),
        forall|k: int| 0 <= k < out.len() ==> has_no_slash(#[trigger] out[k]),
    ensures
        ({
            let all = st::split_char_from(s, '/', start, i, out);
            &&& all.len() > out.len()
            &&& forall|k: int| 0 <= k < all.len() ==> has_no_slash(#[trigger] all[k])
            &&& forall|k: int| 0 <= k < out.len() ==> #[trigger] all[k] == out[k]
        }),
    decreases s.len() - i,
{
    if i >= s.len() {
        assert(s.skip(start) =~= s.subrange(start, i));
    } else if s[i] == '/' {
        let more = out.push(s.subrange(start, i));
        assert(s.subrange(i + 1, i + 1) =~= Seq::empty());
        lemma_split(s, i + 1, i + 1, more);
        let all = st::split_char_from(s, '/', start, i, out);
        assert forall|k: int| 0 <= k < out.len() implies #[trigger] all[k] == out[k] by {
            assert(all[k] == more[k]);
        }
    } else {
        let longer = s.subrange(start, i + 1);
        assert forall|k: int| 0 <= k < longer.len() implies #[trigger] longer[k] != '/' by {
            if k < i - start {
                assert(longer[k] == s.subrange(start, i)[k]);
            }
        }
        lemma_split(s, start, i + 1, out);
    }
}

/// A text without a slash is one part.
proof fn lemma_split_plain(s: Text, start: int, i: int, out: Seq<Text>)
    requires
        0 <= start <= i <= s.len(),
        forall|k: int| i <= k < s.len() ==> #[trigger] s[k] != '/',
    ensures
        st::split_char_from(s, '/', start, i, out) == out.push(s.skip(start)),
    decreases s.len() - i,
{
    if i < s.len() {
        lemma_split_plain(s, start, i + 1, out);
    }
}

/// A part behind a slash is one more part.
proof fn lemma_split_more(a: Text, b: Text, start: int, i: int, out: Seq<Text>)
    requires
        0 <= start <= i <= a.len(),
        has_no_slash(b),
    ensures
        st::split_char_from(a + seq!['/'] + b, '/', start, i, out) == st::split_char_from(
            a,
            '/',
            start,
            i,
            out,
        ).push(b),
    decreases a.len() - i,
{
    let t = a + seq!['/'] + b;
    if i < a.len() {
        assert(t[i] == a[i]);
        if a[i] == '/' {
            assert(t.subrange(start, i) =~= a.subrange(start, i));
            lemma_split_more(a, b, i + 1, i + 1, out.push(a.subrange(start, i)));
        } else {
            lemma_split_more(a, b, start, i + 1, out);
        }
    } else {
        assert(t[i] == '/');
        assert(t.subrange(start, i) =~= a.skip(start));
        assert forall|k: int| i + 1 <= k < t.len() implies #[trigger] t[k] != '/' by {
            assert(t[k] == b[k - i - 1]);
        }
        lemma_split_plain(t, i + 1, i + 1, out.push(a.skip(start)));
        assert(t.skip(i + 1) =~= b);
    }
}

proof fn lemma_split_join(parts: Seq<Text>)
    requires
        parts.len() > 0,
        forall|k: int| 0 <= k < parts.len() ==> has_no_slash(#[trigger] parts[k]),
    ensures
        st::split_char(st::join(parts, "/"@), '/') == parts,
    decreases parts.len(),
{
    reveal_strlit("/");
    assert("/"@ =~= seq!['/']);
    if parts.len() == 1 {
        lemma_split_plain(parts[0], 0, 0, Seq::empty());
        assert(parts[0].skip(0) =~= parts[0]);
        assert(Seq::<Text>::empty().push(parts[0]) =~= parts);
    } else {
        lemma_split_join(parts.drop_last());
        lemma_split_more(
            st::join(parts.drop_last(), "/"@),
            parts.last(),
            0,
            0,
            Seq::empty(),
        );
        assert(parts.drop_last().push(parts.last()) =~= parts);
    }
}

/// Parts that are joined start with the first one.
proof fn lemma_join_first(parts: Seq<Text>, sep: Text)
    requires
        parts.len() > 1,
    ensures
        st::join(parts, sep) == parts[0] + sep + st::join(parts.skip(1), sep),
    decreases parts.len(),
{
    if parts.len() == 2 {
        reveal_with_fuel(st::join, 3);
        assert(parts.drop_last()[0] == parts[0]);
        assert(parts.skip(1)[0] == parts[1]);
    } else {
        lemma_join_first(parts.drop_last(), sep);
        assert(parts.drop_last().skip(1) =~= parts.skip(1).drop_last());
        assert(st::join(parts, sep) =~= parts[0] + sep + st::join(parts.skip(1), sep));
    }
}

proof fn lemma_all_kept(parts: Seq<Text>, i: int, out: Seq<Text>)
    requires
        0 <= i <= parts.len(),
        forall|k: int|
            i <= k < parts.len() ==> (#[trigger] parts[k]).len() > 0 && (parts[k] == "."@ ==> k
                == 0),
    ensures
        sh::components_from(parts, i, out) == out + parts.skip(i),
    decreases parts.len() - i,
{
    if i < parts.len() {
        lemma_all_kept(parts, i + 1, out.push(parts[i]));
        assert(out.push(parts[i]) + parts.skip(i + 1) =~= out + parts.skip(i));
    } else {
        assert(out + parts.skip(i) =~= out);
    }
}

proof fn lemma_components_from(parts: Seq<Text>, i: int, out: Seq<Text>)
    requires
        0 <= i <= parts.len(),
        are_components(out),
        i == 0 && parts.len() > 0 && parts[0].len() > 0 ==> out.len() == 0,
        forall|k: int| 0 <= k < parts.len() ==> has_no_slash(#[trigger] parts[k]),
    ensures
        are_components(sh::components_from(parts, i, out)),
    decreases parts.len() - i,
{
    if i < parts.len() {
        let next = if parts[i].len() == 0 || (parts[i] == "."@ && i > 0) {
            out
        } else {
            out.push(parts[i])
        };
        assert forall|k: int| 0 <= k < next.len() implies is_component(#[trigger] next[k], k) by {
            if k < out.len() {
                assert(is_component(out[k], k));
            }
        }
        lemma_components_from(parts, i + 1, next);
    }
}

/// The components of a path are components.
pub proof fn law_components(path: Text)
    ensures
        are_components(sh::components(path)),
{
    let parts = st::split_char(path, '/');
    assert(path.subrange(0, 0) =~= Seq::empty());
    lemma_split(path, 0, 0, Seq::empty());
    if sh::is_absolute(path) {
        assert(path.subrange(1, 1) =~= Seq::empty());
        lemma_split(path, 1, 1, seq![path.subrange(0, 0)]);
        assert(parts[0] == seq![path.subrange(0, 0)][0]) by {
            assert(Seq::<Text>::empty().push(path.subrange(0, 0)) =~= seq![path.subrange(0, 0)]);
        }
        lemma_components_from(parts, 0, seq!["/"@]);
    } else {
        lemma_components_from(parts, 0, Seq::empty());
    }
}

proof fn lemma_path_of_absolute(parts: Seq<Text>)
    requires
        are_components(parts),
        parts.len() > 0,
        parts[0] == "/"@,
    ensures
        sh::components(sh::path_of(parts)) == parts,
{
    reveal_strlit("/");
    reveal_strlit(".");
    assert("/"@ =~= seq!['/']);
    let rest = parts.skip(1);
    let all = seq![Seq::<char>::empty()] + rest;
    let path = sh::path_of(parts);
    assert forall|k: int| 0 <= k < rest.len() implies is_component(#[trigger] rest[k], k + 1) by {
        assert(is_component(parts[k + 1], k + 1));
    }
    assert(path[0] == '/');
    if rest.len() == 0 {
        let both = seq![Seq::<char>::empty(), Seq::<char>::empty()];
        lemma_split_join(both);
        lemma_join_first(both, "/"@);
        assert(both.skip(1)[0] == Seq::<char>::empty());
        assert(st::join(both, "/"@) =~= path);
        reveal_with_fuel(sh::components_from, 3);
        assert(parts =~= seq!["/"@]);
    } else {
        lemma_split_join(all);
        lemma_join_first(all, "/"@);
        assert(all.skip(1) =~= rest);
        assert(st::join(all, "/"@) =~= path);
        assert forall|k: int| 1 <= k < all.len() implies (#[trigger] all[k]).len() > 0 && (all[k]
            == "."@ ==> k == 0) by {
            assert(all[k] == rest[k - 1]);
            assert(is_component(rest[k - 1], k));
        }
        lemma_all_kept(all, 1, seq!["/"@]);
        assert(seq!["/"@] + all.skip(1) =~= parts);
    }
}

proof fn lemma_path_of_relative(parts: Seq<Text>)
    requires
        are_components(parts),
        parts.len() > 0,
        parts[0] != "/"@,
    ensures
        sh::components(sh::path_of(parts)) == parts,
{
    let path = sh::path_of(parts);
    assert forall|k: int| 0 <= k < parts.len() implies has_no_slash(#[trigger] parts[k])
        && parts[k].len() > 0 && (parts[k] == "."@ ==> k == 0) by {
        assert(is_component(parts[k], k));
    }
    lemma_split_join(parts);
    if parts.len() > 1 {
        lemma_join_first(parts, "/"@);
    }
    assert(path[0] == parts[0][0]);
    lemma_all_kept(parts, 0, Seq::empty());
    assert(Seq::<Text>::empty() + parts.skip(0) =~= parts);
}

/// The path that components make up has these components.
pub proof fn law_path_of(parts: Seq<Text>)
    requires
        are_components(parts),
    ensures
        sh::components(sh::path_of(parts)) == parts,
{
    if parts.len() == 0 {
        lemma_split_plain(Seq::empty(), 0, 0, Seq::empty());
        reveal_with_fuel(sh::components_from, 2);
        assert(parts =~= Seq::empty());
    } else if parts[0] == "/"@ {
        lemma_path_of_absolute(parts);
    } else {
        lemma_path_of_relative(parts);
    }
}

/// The directory of a path has its components but for the last one.
pub proof fn law_parent(path: Text, dir: Text)
    requires
        sh::parent(path) == Some(dir),
    ensures
        sh::components(dir) == sh::components(path).drop_last(),
{
    let parts = sh::components(path);
    law_components(path);
    let rest = parts.drop_last();
    assert forall|k: int| 0 <= k < rest.len() implies is_component(#[trigger] rest[k], k) by {
        assert(is_component(parts[k], k));
    }
    law_path_of(rest);
}

proof fn lemma_last_dot(name: Text, k: int, j: int)
    requires
        0 <= k < j <= name.len(),
        name[k] == '.',
        forall|i: int| k < i < j ==> #[trigger] name[i] != '.',
    ensures
        sh::last_char(name, '.', j) == Some(k),
    decreases j,
{
    if k < j - 1 {
        assert(name[j - 1] != '.');
        lemma_last_dot(name, k, j - 1);
    }
}

proof fn lemma_last_slash(path: Text, k: int, j: int)
    requires
        -1 <= k < j <= path.len(),
        k >= 0 ==> path[k] == '/',
        forall|i: int| k < i < j ==> #[trigger] path[i] != '/',
    ensures
        sh::last_char(path, '/', j) == (if k >= 0 {
            Some(k)
        } else {
            None
        }),
    decreases j,
{
    if k < j - 1 {
        assert(path[j - 1] != '/');
        if j - 1 > k && j - 1 > 0 {
            lemma_last_slash(path, k, j - 1);
        }
    }
}

/// The extension of a file is what follows the last dot of its name, in whatever
/// directory it is.
pub proof fn law_extension(dir: Text, stem: Text, ext: Text)
    requires
        dir.len() == 0 || dir.last() == '/',
        stem.len() > 0,
        !stem.contains('/'),
        !ext.contains('/'),
        !ext.contains('.'),
        ext.len() > 0,
    ensures
        sh::extension(dir + (stem + seq!['.'] + ext)) == Some(ext),
{
    let name = stem + seq!['.'] + ext;
    let path = dir + name;
    let k = stem.len() as int;
    assert(name[k] == '.');
    assert forall|i: int| k < i < name.len() implies #[trigger] name[i] != '.' by {
        assert(name[i] == ext[i - k - 1]);
        assert(ext.contains(ext[i - k - 1]));
    }
    lemma_last_dot(name, k, name.len() as int);
    assert(name.skip(k + 1) =~= ext);
    assert forall|i: int| dir.len() - 1 < i < path.len() implies #[trigger] path[i] != '/' by {
        let j = i - dir.len();
        assert(path[i] == name[j]);
        if j < k {
            assert(name[j] == stem[j]);
            assert(stem.contains(stem[j]));
        } else if j > k {
            assert(name[j] == ext[j - k - 1]);
            assert(ext.contains(ext[j - k - 1]));
        }
    }
    lemma_last_slash(path, dir.len() - 1, path.len() as int);
    assert(sh::tail(path) =~= name);
    reveal_strlit(".");
    reveal_strlit("..");
    reveal_strlit("/");
    sh::lemma_tail(path);
    assert(name.len() >= 3);
}

/// A source is in fixed form exactly where its extension is one of those of fixed
/// form and no part of its path says otherwise.
pub proof fn law_fixed_form(dir: Text, stem: Text, ext: Text)
    requires
        dir.len() == 0 || dir.last() == '/',
        stem.len() > 0,
        !stem.contains('/'),
        !ext.contains('/'),
        !ext.contains('.'),
        ext.len() > 0,
    ensures
        ({
            let path = dir + (stem + seq!['.'] + ext);
            sh::is_fixed_form_path(path) == ((ext == "f"@ || ext == "for"@ || ext == "ftn"@ || ext
                == "f77"@ || ext == "F"@ || ext == "FOR"@ || ext == "FTN"@ || ext == "F77"@)
                && forall|i: int|
                0 <= i < sh::components(path).len() ==> {
                    let part = st::lower(#[trigger] sh::components(path)[i]);
                    part != "free-form"@ && part != "free_form"@ && part != "freeform"@
                })
        }),
{
    law_extension(dir, stem, ext);
    let path = dir + (stem + seq!['.'] + ext);
    reveal_strlit("free-form");
    reveal_strlit("free_form");
    reveal_strlit("freeform");
    assert(st::lower("free-form"@) =~= "free-form"@);
    assert(st::lower("free_form"@) =~= "free_form"@);
    assert(st::lower("freeform"@) =~= "freeform"@);
    if sh::has_free_form_hint(path) {
        let i = choose|i: int|
            0 <= i < sh::components(path).len() && sh::is_free_form_hint(
                #[trigger] sh::components(path)[i],
            );
        let part = st::lower(sh::components(path)[i]);
        assert(part == "free-form"@ || part == "free_form"@ || part == "freeform"@);
    }
    assert forall|i: int| 0 <= i < sh::components(path).len() && !sh::has_free_form_hint(path)
        implies {
        let part = st::lower(#[trigger] sh::components(path)[i]);
        part != "free-form"@ && part != "free_form"@ && part != "freeform"@
    } by {
        assert(!sh::is_free_form_hint(sh::components(path)[i]));
    }
}

} // verus!
