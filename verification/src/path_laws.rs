//! What holds of the functions on paths, said of the components.

use vstd::prelude::*;

use crate::file_path;
use crate::file_path::{ComponentView, FilePath, PathComponent, PathView};
use crate::terms::{has_name, is_below, is_one_name, is_rest, stem_ends};

verus! {

/// The view of a path is its components with their names, in order.
pub proof fn law_paths_are_their_components(path: FilePath)
    ensures
        path@.is_absolute == path.is_absolute,
        path@.components.len() == path.components@.len(),
        forall|i: int|
            0 <= i < path.components@.len() ==> match path.components@[i] {
                PathComponent::Prefix(name) => #[trigger] path@.components[i]
                    == ComponentView::Prefix(name@),
                PathComponent::RootDir => path@.components[i] == ComponentView::RootDir,
                PathComponent::CurDir => path@.components[i] == ComponentView::CurDir,
                PathComponent::ParentDir => path@.components[i] == ComponentView::ParentDir,
                PathComponent::Normal(name) => path@.components[i] == ComponentView::Normal(name@),
            },
{
}

/// Two components are the same if and only if they are of one kind and have the same name.
pub proof fn law_same_component(one: &PathComponent, other: &PathComponent, equal: bool)
    requires
        call_ensures(PathComponent::same, (one, other), equal),
    ensures
        equal == match (*one, *other) {
            (PathComponent::Prefix(a), PathComponent::Prefix(b)) => a@ == b@,
            (PathComponent::RootDir, PathComponent::RootDir) => true,
            (PathComponent::CurDir, PathComponent::CurDir) => true,
            (PathComponent::ParentDir, PathComponent::ParentDir) => true,
            (PathComponent::Normal(a), PathComponent::Normal(b)) => a@ == b@,
            _ => false,
        },
{
}

/// A copy of a component is of the same kind and has the same name.
pub proof fn law_copy_component(one: &PathComponent, copy: PathComponent)
    requires
        call_ensures(PathComponent::copy, (one,), copy),
    ensures
        match (*one, copy) {
            (PathComponent::Prefix(a), PathComponent::Prefix(b)) => a@ == b@,
            (PathComponent::RootDir, PathComponent::RootDir) => true,
            (PathComponent::CurDir, PathComponent::CurDir) => true,
            (PathComponent::ParentDir, PathComponent::ParentDir) => true,
            (PathComponent::Normal(a), PathComponent::Normal(b)) => a@ == b@,
            _ => false,
        },
{
}

/// The path of a name has that name for its one component.
pub proof fn law_path_of_name(name: &[u8], path: FilePath)
    requires
        call_ensures(FilePath::of_name, (name,), path),
    ensures
        is_one_name(path@, name@),
{
}

/// A copy of a path has the same components.
pub proof fn law_copy_path(path: &FilePath, copy: FilePath)
    requires
        call_ensures(FilePath::copy, (path,), copy),
    ensures
        copy@.is_absolute == path@.is_absolute,
        copy@.components == path@.components,
{
}

/// The text holds no slash, backslash or colon.
pub open spec fn is_plain_text(b: Seq<u8>) -> bool {
    forall|i: int| 0 <= i < b.len() ==> #[trigger] b[i] != 0x2f && b[i] != 0x5c && b[i] != 0x3a
}

/// `path` is what a text without slashes is: no component for no text, the current and the parent
/// directory for `.` and `..`, and else the text as a name.
pub open spec fn is_plain_text_path(path: PathView, b: Seq<u8>) -> bool {
    &&& !path.is_absolute
    &&& if b.len() == 0 {
        path.components.len() == 0
    } else {
        path.components.len() == 1 && path.components[0] == if b.len() == 1 && b[0] == 0x2e {
            ComponentView::CurDir
        } else if b.len() == 2 && b[0] == 0x2e && b[1] == 0x2e {
            ComponentView::ParentDir
        } else {
            ComponentView::Normal(b)
        }
    }
}

/// The path of a text without slashes.
pub proof fn lemma_plain_text(path: PathView, b: Seq<u8>)
    requires
        file_path::is_text_path(path, b),
        is_plain_text(b),
    ensures
        is_plain_text_path(path, b),
{
    assert(file_path::is_portable(b));
    file_path::lemma_split_without_slashes(b);
    let parts = seq![b];
    assert(parts.drop_last() =~= Seq::<Seq<u8>>::empty());
    assert(file_path::parts_components(parts.drop_last()) =~= Seq::<ComponentView>::empty());
    if b.len() == 1 && b[0] == 0x2e {
        assert(b =~= seq![0x2eu8]);
    }
    if b.len() == 2 && b[0] == 0x2e && b[1] == 0x2e {
        assert(b =~= seq![0x2eu8, 0x2eu8]);
    }
    assert(seq![0x2eu8].len() == 1 && seq![0x2eu8][0] == 0x2e);
    assert(seq![0x2eu8, 0x2eu8].len() == 2);
    assert(seq![0x2eu8, 0x2eu8][0] == 0x2e && seq![0x2eu8, 0x2eu8][1] == 0x2e);
}

/// The path of a text without slashes, backslashes and colons.
pub proof fn law_path_of_a_plain_text(text: &str, path: FilePath, b: Seq<u8>)
    requires
        call_ensures(FilePath::of_text, (text,), path),
        b == vstd::utf8::encode_utf8(text@),
        is_plain_text(b),
    ensures
        is_plain_text_path(path@, b),
{
    lemma_plain_text(path@, b);
}

/// There is a first part, and it starts as the text does.
proof fn lemma_first_part(t: Seq<u8>)
    ensures
        file_path::split_at_slashes(t).len() > 0,
        file_path::split_at_slashes(t)[0].len() > 0 ==> t.len() > 0
            && file_path::split_at_slashes(t)[0][0] == t[0],
    decreases t.len(),
{
    if t.len() > 0 {
        let before = t.drop_last();
        lemma_first_part(before);
        let parts = file_path::split_at_slashes(before);
        if t.last() != 0x2f && parts.len() == 1 {
            assert(file_path::split_at_slashes(t)[0] == parts[0].push(t.last()));
            if parts[0].len() == 0 {
                lemma_only_part(before);
            }
        }
    }
}

/// A text of one part is that part.
proof fn lemma_only_part(t: Seq<u8>)
    requires
        file_path::split_at_slashes(t).len() == 1,
    ensures
        file_path::split_at_slashes(t)[0] == t,
    decreases t.len(),
{
    if t.len() == 0 {
        assert(t =~= Seq::empty());
    } else {
        lemma_first_part_len(t.drop_last());
        if t.last() != 0x2f {
            lemma_only_part(t.drop_last());
            assert(t.drop_last().push(t.last()) =~= t);
        }
    }
}

/// There is a first part.
proof fn lemma_first_part_len(t: Seq<u8>)
    ensures
        file_path::split_at_slashes(t).len() > 0,
    decreases t.len(),
{
    if t.len() > 0 {
        lemma_first_part_len(t.drop_last());
    }
}

/// The parts of a text are those before a slash and those behind it.
proof fn lemma_split_at(t: Seq<u8>, k: int)
    requires
        0 <= k < t.len(),
        t[k] == 0x2f,
    ensures
        file_path::split_at_slashes(t) == file_path::split_at_slashes(t.subrange(0, k))
            + file_path::split_at_slashes(t.subrange(k + 1, t.len() as int)),
    decreases t.len(),
{
    let left = t.subrange(0, k);
    let right = t.subrange(k + 1, t.len() as int);
    let a = file_path::split_at_slashes(left);
    let before = t.drop_last();
    if k == t.len() - 1 {
        assert(before =~= left);
        assert(right =~= Seq::<u8>::empty());
        assert(file_path::split_at_slashes(t) =~= a + file_path::split_at_slashes(right));
    } else {
        lemma_split_at(before, k);
        assert(before.subrange(0, k) =~= left);
        assert(before.subrange(k + 1, before.len() as int) =~= right.drop_last());
        let b = file_path::split_at_slashes(right.drop_last());
        lemma_first_part_len(right.drop_last());
        assert(right.last() == t.last());
        if t.last() == 0x2f {
            assert((a + b).push(Seq::empty()) =~= a + b.push(Seq::empty()));
        } else {
            assert((a + b).last() == b.last());
            assert((a + b).drop_last() =~= a + b.drop_last());
            assert((a + b).drop_last().push(b.last().push(t.last())) =~= a + b.drop_last().push(
                b.last().push(t.last()),
            ));
        }
    }
}

/// The components of parts are those of the first and then those of the others.
proof fn lemma_parts_components(p: Seq<Seq<u8>>, q: Seq<Seq<u8>>)
    requires
        p.len() > 0,
        q.len() > 0 ==> q[0] != seq![0x2eu8],
    ensures
        file_path::parts_components(p + q) == file_path::parts_components(p)
            + file_path::parts_components(q),
    decreases q.len(),
{
    let cp = file_path::parts_components(p);
    if q.len() == 0 {
        assert(p + q =~= p);
        assert(cp + file_path::parts_components(q) =~= cp);
    } else {
        let before = q.drop_last();
        lemma_parts_components(p, before);
        assert((p + q).drop_last() =~= p + before);
        assert((p + q).last() == q.last());
        let cb = file_path::parts_components(before);
        let part = q.last();
        assert((cp + cb).push(ComponentView::ParentDir) =~= cp + cb.push(ComponentView::ParentDir));
        assert((cp + cb).push(ComponentView::Normal(part)) =~= cp + cb.push(
            ComponentView::Normal(part),
        ));
        if q.len() == 1 {
            assert(part == q[0]);
        }
    }
}

/// The path of two texts with a slash between them has the components of the first and then those of
/// the second, where that does not start with a dot or a slash and no text holds a backslash or a
/// colon.
pub proof fn law_path_of_a_text_with_a_slash(
    text: &str,
    left: &str,
    right: &str,
    path: FilePath,
    left_path: FilePath,
    right_path: FilePath,
    b: Seq<u8>,
    l: Seq<u8>,
    r: Seq<u8>,
)
    requires
        call_ensures(FilePath::of_text, (text,), path),
        call_ensures(FilePath::of_text, (left,), left_path),
        call_ensures(FilePath::of_text, (right,), right_path),
        b == vstd::utf8::encode_utf8(text@),
        l == vstd::utf8::encode_utf8(left@),
        r == vstd::utf8::encode_utf8(right@),
        b == l.push(0x2f) + r,
        l.len() > 0,
        l[0] != 0x2f,
        r.len() > 0 ==> r[0] != 0x2e && r[0] != 0x2f,
        forall|i: int| 0 <= i < b.len() ==> #[trigger] b[i] != 0x5c && b[i] != 0x3a,
    ensures
        !path@.is_absolute,
        path@.components == left_path@.components + right_path@.components,
{
    let k = l.len() as int;
    assert(b[0] == l[0]);
    assert(b[k] == 0x2f);
    assert(b.subrange(0, k) =~= l);
    assert(b.subrange(k + 1, b.len() as int) =~= r);
    assert forall|i: int| 0 <= i < l.len() implies #[trigger] l[i] != 0x5c && l[i] != 0x3a by {
        assert(b[i] == l[i]);
    }
    assert forall|i: int| 0 <= i < r.len() implies #[trigger] r[i] != 0x5c && r[i] != 0x3a by {
        assert(b[k + 1 + i] == r[i]);
    }
    assert(file_path::is_portable(b));
    assert(file_path::is_portable(l));
    assert(file_path::is_portable(r));
    lemma_split_at(b, k);
    lemma_first_part_len(l);
    lemma_first_part(r);
    let q = file_path::split_at_slashes(r);
    assert(seq![0x2eu8].len() == 1 && seq![0x2eu8][0] == 0x2e);
    lemma_parts_components(file_path::split_at_slashes(l), q);
}

/// The name of a path is its last component, where that is a name.
pub proof fn law_file_name(path: &FilePath, name: Option<&[u8]>)
    requires
        call_ensures(FilePath::file_name, (path,), name),
    ensures
        match name {
            Some(n) => has_name(path@, n@),
            None => forall|n: Seq<u8>| !has_name(path@, n),
        },
{
}

/// The last dot, in terms of the bytes.
pub proof fn lemma_last_dot(name: Seq<u8>)
    ensures
        -1 <= file_path::last_dot(name) < name.len(),
        file_path::last_dot(name) >= 0 ==> name[file_path::last_dot(name)] == 0x2e,
        forall|i: int|
            file_path::last_dot(name) < i < name.len() && 0 <= i ==> #[trigger] name[i] != 0x2e,
    decreases name.len(),
{
    if name.len() > 0 && name.last() != 0x2e {
        let before = name.drop_last();
        lemma_last_dot(before);
        assert forall|i: int|
            file_path::last_dot(name) < i < name.len() && 0 <= i implies #[trigger] name[i] != 0x2e by {
            if i < before.len() {
                assert(before[i] == name[i]);
            }
        }
        if file_path::last_dot(before) >= 0 {
            assert(before[file_path::last_dot(before)] == name[file_path::last_dot(before)]);
        }
    }
}

/// Where the stem of a name ends.
pub proof fn lemma_stem(name: Seq<u8>, end: int)
    requires
        stem_ends(name, end),
    ensures
        file_path::name_stem(name) == name.subrange(0, end),
        end == name.len() ==> file_path::name_extension(name) is None,
        end < name.len() ==> file_path::name_extension(name) == Some(
            name.subrange(end + 1, name.len() as int),
        ),
{
    lemma_last_dot(name);
    let dot = file_path::last_dot(name);
    if end < name.len() {
        assert(dot == end) by {
            if dot < end {
                assert(name[end] != 0x2e);
            }
            if dot > end {
                assert(name[dot] != 0x2e);
            }
        }
    } else {
        if dot > 0 {
            assert(name[dot] != 0x2e);
        }
        assert(name.subrange(0, end) =~= name);
    }
}

/// The stem of a path is its name up to the last dot, unless that starts the name or there is none.
pub proof fn law_file_stem(path: &FilePath, stem: Option<&[u8]>, name: Seq<u8>, end: int)
    requires
        call_ensures(FilePath::file_stem, (path,), stem),
        has_name(path@, name),
        stem_ends(name, end),
    ensures
        stem matches Some(s) && s@.len() == end && forall|i: int|
            0 <= i < end ==> #[trigger] s@[i] == name[i],
{
    lemma_stem(name, end);
}

/// A path that does not end with a name has no stem and no extension.
pub proof fn law_paths_without_a_name(
    path: &FilePath,
    stem: Option<&[u8]>,
    extension: Option<&[u8]>,
)
    requires
        call_ensures(FilePath::file_stem, (path,), stem),
        call_ensures(FilePath::extension, (path,), extension),
        forall|name: Seq<u8>| !has_name(path@, name),
    ensures
        stem is None,
        extension is None,
{
    if path@.components.len() > 0 && path@.components.last() is Normal {
        assert(has_name(path@, path@.components.last()->Normal_0));
    }
}

/// The extension of a path is what its name goes on with behind the dot that ends the stem.
pub proof fn law_extension(path: &FilePath, extension: Option<&[u8]>, name: Seq<u8>, end: int)
    requires
        call_ensures(FilePath::extension, (path,), extension),
        has_name(path@, name),
        stem_ends(name, end),
    ensures
        end == name.len() <==> extension is None,
        extension matches Some(e) ==> e@.len() == name.len() - end - 1 && forall|i: int|
            0 <= i < e@.len() ==> #[trigger] e@[i] == name[end + 1 + i],
{
    lemma_stem(name, end);
}

/// The parent of a path is the path less its last component; an empty path, and one that ends with a
/// root or a prefix, has none.
pub proof fn law_parent(path: &FilePath, parent: Option<FilePath>)
    requires
        call_ensures(FilePath::parent, (path,), parent),
    ensures
        ({
            let n = path@.components.len();
            parent is None <==> n == 0 || path@.components[n - 1] is RootDir
                || path@.components[n - 1] is Prefix
        }),
        parent matches Some(p) ==> {
            &&& p@.is_absolute == path@.is_absolute
            &&& p@.components.len() == path@.components.len() - 1
            &&& forall|i: int|
                0 <= i < p@.components.len() ==> #[trigger] p@.components[i]
                    == path@.components[i]
        },
{
}

/// A path starts with another if and only if it has all its components first.
pub proof fn lemma_below(path: PathView, dir: PathView)
    ensures
        path.starts_with(dir) <==> is_below(path, dir),
{
    let n = dir.components.len() as int;
    if n <= path.components.len() {
        if path.starts_with(dir) {
            assert forall|i: int| 0 <= i < n implies #[trigger] path.components[i]
                == dir.components[i] by {
                assert(path.components.subrange(0, n)[i] == path.components[i]);
            }
        }
        if is_below(path, dir) {
            assert(path.components.subrange(0, n) =~= dir.components);
        }
    }
}

/// A path starts with another if and only if it has all its components first.
pub proof fn law_starts_with(path: &FilePath, dir: &FilePath, r: bool)
    requires
        call_ensures(FilePath::starts_with, (path, dir), r),
    ensures
        r <==> is_below(path@, dir@),
{
    lemma_below(path@, dir@);
}

/// What a path goes on with behind another is there if and only if it starts with it.
pub proof fn law_strip_prefix(path: &FilePath, dir: &FilePath, rest: Option<FilePath>)
    requires
        call_ensures(FilePath::strip_prefix, (path, dir), rest),
    ensures
        rest is Some <==> is_below(path@, dir@),
        rest matches Some(r) ==> is_rest(r@, path@, dir@.components.len() as int),
{
    lemma_below(path@, dir@);
}

/// What follows a directory in a path.
pub proof fn lemma_rest(path: PathView, dir: PathView, rest: PathView)
    requires
        is_below(path, dir),
        is_rest(rest, path, dir.components.len() as int),
    ensures
        path.strip_prefix(dir) == Some(rest),
{
    lemma_below(path, dir);
    assert(rest.components =~= path.strip_prefix(dir)->0.components);
}

/// A path is plain if and only if all its components are names or `.`.
pub proof fn law_is_plain(path: &FilePath, r: bool)
    requires
        call_ensures(FilePath::is_plain, (path,), r),
    ensures
        r <==> forall|i: int|
            0 <= i < path@.components.len() ==> (#[trigger] path@.components[i] is Normal
                || path@.components[i] is CurDir),
{
}

/// The path starts with a Windows prefix that starts with two backslashes, a question mark and a
/// backslash.
pub open spec fn starts_verbatim(path: PathView) -> bool {
    &&& path.components.len() > 0
    &&& path.components[0] matches ComponentView::Prefix(name)
    &&& name.len() >= 4
    &&& name[0] == 0x5c
    &&& name[1] == 0x5c
    &&& name[2] == 0x3f
    &&& name[3] == 0x5c
}

/// The components of `s` are those of `a` up to index `n`, then those of `b` from index `m` on.
pub open spec fn is_chain(
    s: Seq<ComponentView>,
    a: Seq<ComponentView>,
    n: int,
    b: Seq<ComponentView>,
    m: int,
) -> bool {
    &&& s.len() == n + (b.len() - m)
    &&& forall|i: int| 0 <= i < n ==> #[trigger] s[i] == a[i]
    &&& forall|i: int| m <= i < b.len() ==> s[n - m + i] == #[trigger] b[i]
}

/// A path as seen from a directory. It stands for itself where it is absolute or names a drive or
/// share, and keeps only the drive or share of the directory where it starts at a root. Else its
/// components follow those of the directory; a `.` that it starts with goes, unless the directory has
/// no component or only a drive or share.
pub proof fn law_join(dir: &FilePath, path: &FilePath, joined: FilePath)
    requires
        call_ensures(FilePath::join, (dir, path), joined),
        !starts_verbatim(dir@),
    ensures
        ({
            let n = dir@.components.len() as int;
            let has_prefix = n > 0 && dir@.components[0] is Prefix;
            let first_is_root = path@.components.len() > 0 && path@.components[0] is RootDir;
            let first_is_dot = path@.components.len() > 0 && path@.components[0] is CurDir;
            let first_is_prefix = path@.components.len() > 0 && path@.components[0] is Prefix;
            if path@.is_absolute || first_is_prefix {
                &&& joined@.is_absolute == path@.is_absolute
                &&& joined@.components == path@.components
            } else if first_is_root {
                &&& joined@.is_absolute == has_prefix
                &&& is_chain(
                    joined@.components,
                    dir@.components,
                    if has_prefix {
                        1
                    } else {
                        0
                    },
                    path@.components,
                    0,
                )
            } else {
                &&& joined@.is_absolute == dir@.is_absolute
                &&& is_chain(
                    joined@.components,
                    dir@.components,
                    n,
                    path@.components,
                    if first_is_dot && n > 0 && !(n == 1 && has_prefix) {
                        1
                    } else {
                        0
                    },
                )
            }
        }),
{
}

/// The root behind a verbatim prefix stays.
proof fn lemma_verbatim_root(components: Seq<ComponentView>, other: Seq<ComponentView>)
    requires
        components.len() > 1,
        components[0] is Prefix,
        components[1] is RootDir,
    ensures
        file_path::verbatim_join(components, other).len() > 1,
        file_path::verbatim_join(components, other)[0] == components[0],
        file_path::verbatim_join(components, other)[1] is RootDir,
    decreases other.len(),
{
    if other.len() > 0 {
        lemma_verbatim_root(components, other.drop_last());
    }
}

/// A path as seen from a directory with a verbatim prefix and its root: nothing leads to the
/// directory, and each further component goes on from where those before it lead. A name is added, a
/// `.` leads nowhere else, a `..` takes the last name away, and a root leads back to the root.
pub proof fn law_join_to_verbatim(
    dir: &FilePath,
    path: &FilePath,
    longer: &FilePath,
    joined: FilePath,
    joined_longer: FilePath,
)
    requires
        call_ensures(FilePath::join, (dir, path), joined),
        call_ensures(FilePath::join, (dir, longer), joined_longer),
        starts_verbatim(dir@),
        dir@.components.len() > 1,
        dir@.components[1] is RootDir,
        !path@.is_absolute,
        !longer@.is_absolute,
        longer@.components.len() == path@.components.len() + 1,
        forall|i: int|
            0 <= i < path@.components.len() ==> #[trigger] longer@.components[i]
                == path@.components[i],
        !(longer@.components[0] is Prefix),
    ensures
        joined@.is_absolute == dir@.is_absolute,
        path@.components.len() == 0 ==> joined@.components == dir@.components,
        joined_longer@.is_absolute == dir@.is_absolute,
        ({
            let before = joined@.components;
            let n = before.len() as int;
            match longer@.components[path@.components.len() as int] {
                ComponentView::RootDir => {
                    &&& joined_longer@.components.len() == 2
                    &&& joined_longer@.components[0] == dir@.components[0]
                    &&& joined_longer@.components[1] is RootDir
                },
                ComponentView::CurDir => joined_longer@.components == before,
                ComponentView::ParentDir => if n > 0 && before[n - 1] is Normal {
                    joined_longer@.components == before.drop_last()
                } else {
                    joined_longer@.components == before
                },
                name => joined_longer@.components == before.push(name),
            }
        }),
{
    let c = dir@.components;
    lemma_verbatim_root(c, path@.components);
    lemma_verbatim_root(c, longer@.components);
    assert(longer@.components.drop_last() =~= path@.components);
    if path@.components.len() > 0 {
        assert(longer@.components[0] == path@.components[0]);
    }
}

} // verus!
