//! File system paths as lists of components.

use vstd::prelude::*;

use crate::bytes;
use crate::outside;

verus! {

/// A part of a path, as `std::path::Component` tells them apart. Names are kept as bytes.
#[derive(Debug, PartialEq, Eq)]
pub enum PathComponent {
    /// A Windows drive or share.
    Prefix(Vec<u8>),
    /// The root of the file system.
    RootDir,
    /// The current directory, `.`.
    CurDir,
    /// The parent directory, `..`.
    ParentDir,
    /// The name of a directory or a file.
    Normal(Vec<u8>),
}

/// A path component with its name as a sequence of bytes.
pub enum ComponentView {
    Prefix(Seq<u8>),
    RootDir,
    CurDir,
    ParentDir,
    Normal(Seq<u8>),
}

impl View for PathComponent {
    type V = ComponentView;

    open spec fn view(&self) -> ComponentView {
        match *self {
            PathComponent::Prefix(name) => ComponentView::Prefix(name@),
            PathComponent::RootDir => ComponentView::RootDir,
            PathComponent::CurDir => ComponentView::CurDir,
            PathComponent::ParentDir => ComponentView::ParentDir,
            PathComponent::Normal(name) => ComponentView::Normal(name@),
        }
    }
}

/// A path. Repeated separators, a separator at the end and a `.` past the beginning leave no
/// component, as with `std::path::Path::components`.
#[derive(Debug, PartialEq, Eq)]
pub struct FilePath {
    /// The path does not depend on a current directory.
    pub is_absolute: bool,
    /// The parts of the path.
    pub components: Vec<PathComponent>,
}

/// A path with its components as a sequence.
pub struct PathView {
    pub is_absolute: bool,
    pub components: Seq<ComponentView>,
}

/// Components with their names as sequences of bytes.
pub open spec fn component_views(components: Seq<PathComponent>) -> Seq<ComponentView> {
    components.map_values(|c: PathComponent| c@)
}

impl View for FilePath {
    type V = PathView;

    open spec fn view(&self) -> PathView {
        PathView {
            is_absolute: self.is_absolute,
            components: component_views(self.components@),
        }
    }
}

/// A relative path of one name.
pub open spec fn name_path(name: Seq<u8>) -> PathView {
    PathView { is_absolute: false, components: seq![ComponentView::Normal(name)] }
}

/// The parts of a text before, between and behind its slashes.
pub open spec fn split_at_slashes(text: Seq<u8>) -> Seq<Seq<u8>>
    decreases text.len(),
{
    if text.len() == 0 {
        seq![Seq::empty()]
    } else {
        let before = split_at_slashes(text.drop_last());
        if text.last() == 0x2f {
            before.push(Seq::empty())
        } else {
            before.drop_last().push(before.last().push(text.last()))
        }
    }
}

/// The components that the parts of a text stand for: an empty part for none, a `.` for one only
/// where it is the first part.
pub open spec fn parts_components(parts: Seq<Seq<u8>>) -> Seq<ComponentView>
    decreases parts.len(),
{
    if parts.len() == 0 {
        Seq::empty()
    } else {
        let before = parts_components(parts.drop_last());
        let part = parts.last();
        if part.len() == 0 || (part == seq![0x2eu8] && parts.len() > 1) {
            before
        } else if part == seq![0x2eu8] {
            before.push(ComponentView::CurDir)
        } else if part == seq![0x2eu8, 0x2eu8] {
            before.push(ComponentView::ParentDir)
        } else {
            before.push(ComponentView::Normal(part))
        }
    }
}

/// The components of the path that a text is, where slashes are all that separates.
pub open spec fn text_components(text: Seq<u8>) -> Seq<ComponentView> {
    if text.len() > 0 && text[0] == 0x2f {
        seq![ComponentView::RootDir] + parts_components(split_at_slashes(text))
    } else {
        parts_components(split_at_slashes(text))
    }
}

/// The text is the same path on every platform: it holds no backslash and no colon, and does not
/// start with two slashes.
pub open spec fn is_portable(text: Seq<u8>) -> bool {
    &&& !text.contains(0x5c)
    &&& !text.contains(0x3a)
    &&& !(text.len() > 1 && text[0] == 0x2f && text[1] == 0x2f)
}

/// `path` is the path that the text is, as far as that is the same on every platform. Whether a
/// path that starts with a slash is absolute is not.
pub open spec fn is_text_path(path: PathView, text: Seq<u8>) -> bool {
    is_portable(text) ==> {
        &&& path.components == text_components(text)
        &&& !(text.len() > 0 && text[0] == 0x2f) ==> !path.is_absolute
    }
}

/// The text is one name on every platform.
pub open spec fn is_name(text: Seq<u8>) -> bool {
    &&& is_portable(text)
    &&& !text.contains(0x2f)
    &&& text.len() > 0
    &&& text != seq![0x2eu8]
    &&& text != seq![0x2eu8, 0x2eu8]
}

/// A text without slashes is one part.
pub proof fn lemma_split_without_slashes(text: Seq<u8>)
    requires
        !text.contains(0x2f),
    ensures
        split_at_slashes(text) == seq![text],
    decreases text.len(),
{
    if text.len() == 0 {
        assert(text =~= Seq::empty());
    } else {
        let before = text.drop_last();
        assert forall|i: int| 0 <= i < before.len() implies before[i] != 0x2f by {
            assert(before[i] == text[i]);
        }
        lemma_split_without_slashes(before);
        assert(text[text.len() - 1] != 0x2f);
        assert(before.push(text.last()) =~= text);
        assert(split_at_slashes(text) =~= seq![text]);
    }
}

/// The path that one name is.
pub proof fn lemma_name_path(path: PathView, text: Seq<u8>)
    requires
        is_text_path(path, text),
        is_name(text),
    ensures
        path == name_path(text),
{
    lemma_split_without_slashes(text);
    let parts = seq![text];
    assert(parts.drop_last() =~= Seq::<Seq<u8>>::empty());
    assert(parts_components(parts.drop_last()) =~= Seq::<ComponentView>::empty());
    assert(text[0] != 0x2f);
    assert(text_components(text) =~= name_path(text).components);
}

/// The index of the last dot of a name, or -1.
pub open spec fn last_dot(name: Seq<u8>) -> int
    decreases name.len(),
{
    if name.len() == 0 {
        -1
    } else if name.last() == 0x2e {
        name.len() - 1
    } else {
        last_dot(name.drop_last())
    }
}

/// The name without its extension: what stands before the last dot, unless that dot starts the
/// name.
pub open spec fn name_stem(name: Seq<u8>) -> Seq<u8> {
    if last_dot(name) <= 0 {
        name
    } else {
        name.subrange(0, last_dot(name))
    }
}

/// The extension of a name: what stands behind the last dot, unless that dot starts the name.
pub open spec fn name_extension(name: Seq<u8>) -> Option<Seq<u8>> {
    if last_dot(name) <= 0 {
        None
    } else {
        Some(name.subrange(last_dot(name) + 1, name.len() as int))
    }
}

/// The components of a path with a verbatim prefix once those of `other` were added one by one: a
/// root takes the place of all that follows the prefix, a `.` adds nothing, and a `..` takes the last
/// component away if that is a name.
pub open spec fn verbatim_join(
    components: Seq<ComponentView>,
    other: Seq<ComponentView>,
) -> Seq<ComponentView>
    decreases other.len(),
{
    if other.len() == 0 {
        components
    } else {
        let before = verbatim_join(components, other.drop_last());
        match other.last() {
            ComponentView::RootDir => seq![components[0], ComponentView::RootDir],
            ComponentView::CurDir => before,
            ComponentView::ParentDir => if before.last() is Normal {
                before.drop_last()
            } else {
                before
            },
            component => before.push(component),
        }
    }
}

/// The components of a path with a verbatim prefix, with the root that the prefix is followed by
/// where anything is.
pub open spec fn with_root(components: Seq<ComponentView>) -> Seq<ComponentView> {
    if components.len() > 1 && !(components[1] is RootDir) {
        components.insert(1, ComponentView::RootDir)
    } else {
        components
    }
}

/// The text of a Windows prefix that is verbatim: one that starts with `\\?\`.
pub open spec fn is_verbatim_prefix(name: Seq<u8>) -> bool {
    &&& name.len() >= 4
    &&& name[0] == 0x5c
    &&& name[1] == 0x5c
    &&& name[2] == 0x3f
    &&& name[3] == 0x5c
}

impl PathView {
    /// The path starts with a Windows drive or share.
    pub open spec fn has_prefix(self) -> bool {
        self.components.len() > 0 && self.components[0] is Prefix
    }

    /// The path starts with a Windows prefix that is verbatim.
    pub open spec fn is_verbatim(self) -> bool {
        self.has_prefix() && is_verbatim_prefix(self.components[0]->Prefix_0)
    }

    /// The path starts at a root, but on no drive or share that it names.
    pub open spec fn has_bare_root(self) -> bool {
        self.components.len() > 0 && self.components[0] is RootDir
    }

    /// The name that the path ends with.
    pub open spec fn file_name(self) -> Option<Seq<u8>> {
        if self.components.len() > 0 && self.components.last() is Normal {
            Some(self.components.last()->Normal_0)
        } else {
            None
        }
    }

    /// The name that the path ends with, without its extension.
    pub open spec fn file_stem(self) -> Option<Seq<u8>> {
        match self.file_name() {
            None => None,
            Some(name) => Some(name_stem(name)),
        }
    }

    /// The extension of the name that the path ends with.
    pub open spec fn extension(self) -> Option<Seq<u8>> {
        match self.file_name() {
            None => None,
            Some(name) => name_extension(name),
        }
    }

    /// The path without its last component; none where that is a root or a prefix, or where the path
    /// is empty.
    pub open spec fn parent(self) -> Option<PathView> {
        if self.components.len() == 0 || self.components.last() is RootDir
            || self.components.last() is Prefix {
            None
        } else {
            Some(
                PathView {
                    is_absolute: self.is_absolute,
                    components: self.components.drop_last(),
                },
            )
        }
    }

    /// The path starts with all components of `base`.
    pub open spec fn starts_with(self, base: PathView) -> bool {
        &&& base.components.len() <= self.components.len()
        &&& self.components.subrange(0, base.components.len() as int) == base.components
    }

    /// What follows `base` in the path; none where the path does not start with `base`.
    pub open spec fn strip_prefix(self, base: PathView) -> Option<PathView> {
        if self.starts_with(base) {
            Some(
                PathView {
                    is_absolute: self.is_absolute && base.components.len() == 0,
                    components: self.components.subrange(
                        base.components.len() as int,
                        self.components.len() as int,
                    ),
                },
            )
        } else {
            None
        }
    }

    /// A `.` at the beginning of what is joined to the path stays a component.
    pub open spec fn keeps_cur_dir(self) -> bool {
        self.components.len() == 0 || (self.components.len() == 1 && self.has_prefix())
    }

    /// `other` as seen from the directory `self`. A path that is absolute or names a drive or share
    /// stands for itself; one with only a root keeps the drive or share of `self`. To a verbatim
    /// prefix, `.` and `..` are not added.
    pub open spec fn join(self, other: PathView) -> PathView {
        if other.is_absolute || other.has_prefix() {
            other
        } else if self.is_verbatim() {
            PathView {
                is_absolute: self.is_absolute,
                components: if other.components.len() > 0 {
                    with_root(verbatim_join(self.components, other.components))
                } else if self.components.len() == 1 {
                    self.components.push(ComponentView::RootDir)
                } else {
                    self.components
                },
            }
        } else if other.has_bare_root() {
            PathView {
                is_absolute: self.has_prefix(),
                components: if self.has_prefix() {
                    seq![self.components[0]] + other.components
                } else {
                    other.components
                },
            }
        } else {
            PathView {
                is_absolute: self.is_absolute,
                components: if other.components.len() > 0 && other.components[0] is CurDir
                    && !self.keeps_cur_dir() {
                    self.components + other.components.drop_first()
                } else {
                    self.components + other.components
                },
            }
        }
    }

    /// The path starts at a root: nothing of it is relative to a current directory.
    pub open spec fn is_rooted(self) -> bool {
        &&& self.is_absolute
        &&& self.has_bare_root() || (self.components.len() > 1 && self.has_prefix()
            && self.components[1] is RootDir)
    }

    /// Names that are joined to the path are added to it with nothing else: a verbatim prefix has its
    /// root.
    pub open spec fn grows_by_names(self) -> bool {
        self.is_verbatim() ==> self.components.len() > 1 && self.components[1] is RootDir
    }

    /// The path starts at a root and goes on with names only.
    pub open spec fn is_canonical(self) -> bool {
        &&& self.is_rooted()
        &&& forall|i: int|
            0 < i < self.components.len() ==> (#[trigger] self.components[i] is Normal || (i == 1
                && self.has_prefix()))
    }

    /// The path is relative and holds names only.
    pub open spec fn is_names(self) -> bool {
        &&& !self.is_absolute
        &&& forall|i: int| 0 <= i < self.components.len() ==> #[trigger] self.components[i] is Normal
    }

    /// The path holds names and `.` only, so it stays below the directory that it starts from.
    pub open spec fn is_plain(self) -> bool {
        forall|i: int|
            0 <= i < self.components.len() ==> (#[trigger] self.components[i] is Normal
                || self.components[i] is CurDir)
    }
}

impl PathComponent {
    /// The same component once more.
    pub fn copy(&self) -> (component: PathComponent)
        ensures
            component@ == self@,
    {
        match self {
            PathComponent::Prefix(name) => PathComponent::Prefix(
                vstd::slice::slice_to_vec(name.as_slice()),
            ),
            PathComponent::RootDir => PathComponent::RootDir,
            PathComponent::CurDir => PathComponent::CurDir,
            PathComponent::ParentDir => PathComponent::ParentDir,
            PathComponent::Normal(name) => PathComponent::Normal(
                vstd::slice::slice_to_vec(name.as_slice()),
            ),
        }
    }

    /// Whether two components are the same.
    pub fn same(&self, other: &PathComponent) -> (equal: bool)
        ensures
            equal == (self@ == other@),
    {
        match (self, other) {
            (PathComponent::Prefix(a), PathComponent::Prefix(b)) => bytes::same(
                a.as_slice(),
                b.as_slice(),
            ),
            (PathComponent::RootDir, PathComponent::RootDir) => true,
            (PathComponent::CurDir, PathComponent::CurDir) => true,
            (PathComponent::ParentDir, PathComponent::ParentDir) => true,
            (PathComponent::Normal(a), PathComponent::Normal(b)) => bytes::same(
                a.as_slice(),
                b.as_slice(),
            ),
            _ => false,
        }
    }
}

/// The index of the last dot of a name.
fn find_last_dot(name: &[u8]) -> (at: Option<usize>)
    ensures
        match at {
            Some(i) => i < name@.len() && i == last_dot(name@),
            None => last_dot(name@) == -1,
        },
{
    let mut end: usize = name.len();
    assert(name@.subrange(0, end as int) =~= name@);
    while end > 0
        invariant
            end <= name@.len(),
            last_dot(name@) == last_dot(name@.subrange(0, end as int)),
        decreases end,
    {
        assert(name@.subrange(0, end as int).drop_last() =~= name@.subrange(0, end - 1));
        if name[end - 1] == 0x2e {
            return Some(end - 1);
        }
        end -= 1;
    }
    None
}

/// Appends copies of the components of a list from index `from` up to index `to`.
fn append_components(
    out: &mut Vec<PathComponent>,
    components: &Vec<PathComponent>,
    from: usize,
    to: usize,
)
    requires
        from <= to <= components@.len(),
    ensures
        component_views(final(out)@) == component_views(old(out)@) + component_views(
            components@,
        ).subrange(from as int, to as int),
{
    let ghost before = component_views(out@);
    let mut i: usize = from;
    while i < to
        invariant
            from <= i <= to <= components@.len(),
            component_views(out@) == before + component_views(components@).subrange(
                from as int,
                i as int,
            ),
        decreases to - i,
    {
        let ghost so_far = out@;
        out.push(components[i].copy());
        i += 1;
        assert(component_views(out@) =~= component_views(so_far).push(components@[i - 1]@));
        assert(component_views(components@).subrange(from as int, i as int) =~= component_views(
            components@,
        ).subrange(from as int, i - 1).push(components@[i - 1]@));
        assert(component_views(out@) =~= before + component_views(components@).subrange(
            from as int,
            i as int,
        ));
    }
    assert(component_views(out@) =~= before + component_views(components@).subrange(
        from as int,
        to as int,
    ));
}

/// The components of a path with a verbatim prefix once those of `other` were added.
fn join_verbatim(components: &Vec<PathComponent>, other: &Vec<PathComponent>) -> (out: Vec<
    PathComponent,
>)
    requires
        components@.len() > 0,
        components@[0]@ is Prefix,
    ensures
        component_views(out@) == with_root(
            verbatim_join(component_views(components@), component_views(other@)),
        ),
{
    let ghost base = component_views(components@);
    let ghost added = component_views(other@);
    let mut out: Vec<PathComponent> = Vec::new();
    append_components(&mut out, components, 0, components.len());
    assert(component_views(out@) =~= base);
    assert(added.subrange(0, 0) =~= Seq::<ComponentView>::empty());
    let mut i: usize = 0;
    while i < other.len()
        invariant
            i <= other@.len(),
            base.len() > 0,
            base[0] is Prefix,
            added == component_views(other@),
            out@.len() > 0,
            component_views(out@) == verbatim_join(base, added.subrange(0, i as int)),
            component_views(out@)[0] == base[0],
        decreases other@.len() - i,
    {
        let ghost before = component_views(out@);
        assert(added.subrange(0, i + 1).drop_last() =~= added.subrange(0, i as int));
        assert(added.subrange(0, i + 1).last() == other@[i as int]@);
        assert(before.last() == out@[out@.len() - 1]@);
        match &other[i] {
            PathComponent::RootDir => {
                out.truncate(1);
                out.push(PathComponent::RootDir);
                assert(component_views(out@) =~= seq![base[0], ComponentView::RootDir]);
            },
            PathComponent::CurDir => {},
            PathComponent::ParentDir => {
                let last: usize = out.len() - 1;
                if matches!(&out[last], PathComponent::Normal(_)) {
                    out.pop();
                    assert(component_views(out@) =~= before.drop_last());
                }
            },
            component => {
                out.push(component.copy());
                assert(component_views(out@) =~= before.push(component@));
            },
        }
        i += 1;
    }
    assert(added.subrange(0, i as int) =~= added);
    let ghost joined = component_views(out@);
    if out.len() > 1 {
        assert(joined[1] == out@[1]@);
        if !matches!(&out[1], PathComponent::RootDir) {
            out.insert(1, PathComponent::RootDir);
            assert(component_views(out@) =~= joined.insert(1, ComponentView::RootDir));
        }
    }
    out
}

impl FilePath {
    /// A relative path of one name.
    pub fn of_name(name: &[u8]) -> (path: FilePath)
        ensures
            path@ == name_path(name@),
    {
        let mut components: Vec<PathComponent> = Vec::new();
        components.push(PathComponent::Normal(vstd::slice::slice_to_vec(name)));
        let path = FilePath { is_absolute: false, components };
        assert(path@.components =~= name_path(name@).components);
        path
    }

    /// The path that a text is.
    pub fn of_text(text: &str) -> (path: FilePath)
        ensures
            is_text_path(path@, vstd::utf8::encode_utf8(text@)),
    {
        FilePath {
            is_absolute: outside::path_is_absolute(text),
            components: outside::path_components(text),
        }
    }

    /// The same path once more.
    pub fn copy(&self) -> (path: FilePath)
        ensures
            path@ == self@,
    {
        let mut components: Vec<PathComponent> = Vec::new();
        append_components(&mut components, &self.components, 0, self.components.len());
        let path = FilePath { is_absolute: self.is_absolute, components };
        assert(path@.components =~= self@.components);
        path
    }

    /// The name that the path ends with.
    pub fn file_name(&self) -> (name: Option<&[u8]>)
        ensures
            match name {
                Some(n) => self@.file_name() == Some(n@),
                None => self@.file_name() is None,
            },
    {
        let len: usize = self.components.len();
        if len == 0 {
            return None;
        }
        assert(self@.components.last() == self.components@[len - 1]@);
        match &self.components[len - 1] {
            PathComponent::Normal(name) => Some(name.as_slice()),
            _ => None,
        }
    }

    /// The name that the path ends with, without its extension.
    pub fn file_stem(&self) -> (stem: Option<&[u8]>)
        ensures
            match stem {
                Some(s) => self@.file_stem() == Some(s@),
                None => self@.file_stem() is None,
            },
    {
        match self.file_name() {
            None => None,
            Some(name) => match find_last_dot(name) {
                Some(at) if at > 0 => Some(vstd::slice::slice_subrange(name, 0, at)),
                _ => Some(name),
            },
        }
    }

    /// The extension of the name that the path ends with.
    pub fn extension(&self) -> (extension: Option<&[u8]>)
        ensures
            match extension {
                Some(e) => self@.extension() == Some(e@),
                None => self@.extension() is None,
            },
    {
        match self.file_name() {
            None => None,
            Some(name) => {
                let len: usize = name.len();
                match find_last_dot(name) {
                    Some(at) if at > 0 => Some(vstd::slice::slice_subrange(name, at + 1, len)),
                    _ => None,
                }
            },
        }
    }

    /// The path without its last component.
    pub fn parent(&self) -> (parent: Option<FilePath>)
        ensures
            match parent {
                Some(p) => self@.parent() == Some(p@),
                None => self@.parent() is None,
            },
    {
        let len: usize = self.components.len();
        if len == 0 {
            return None;
        }
        assert(self@.components.last() == self.components@[len - 1]@);
        match &self.components[len - 1] {
            PathComponent::RootDir => None,
            PathComponent::Prefix(_) => None,
            _ => {
                let mut components: Vec<PathComponent> = Vec::new();
                append_components(&mut components, &self.components, 0, len - 1);
                let parent = FilePath { is_absolute: self.is_absolute, components };
                assert(parent@.components =~= self@.components.drop_last());
                Some(parent)
            },
        }
    }

    /// Whether the path starts with all components of another.
    pub fn starts_with(&self, base: &FilePath) -> (r: bool)
        ensures
            r == self@.starts_with(base@),
    {
        let len: usize = base.components.len();
        if len > self.components.len() {
            return false;
        }
        let mut i: usize = 0;
        while i < len
            invariant
                i <= len == base.components@.len() <= self.components@.len(),
                forall|j: int| 0 <= j < i ==> self.components@[j]@ == base.components@[j]@,
            decreases len - i,
        {
            if !self.components[i].same(&base.components[i]) {
                assert(self@.components.subrange(0, len as int)[i as int]
                    != base@.components[i as int]);
                return false;
            }
            i += 1;
        }
        assert(self@.components.subrange(0, len as int) =~= base@.components);
        true
    }

    /// What follows another path in this one, where this one starts with it.
    pub fn strip_prefix(&self, base: &FilePath) -> (rest: Option<FilePath>)
        ensures
            match rest {
                Some(r) => self@.strip_prefix(base@) == Some(r@),
                None => self@.strip_prefix(base@) is None,
            },
    {
        if !self.starts_with(base) {
            return None;
        }
        let mut components: Vec<PathComponent> = Vec::new();
        append_components(
            &mut components,
            &self.components,
            base.components.len(),
            self.components.len(),
        );
        let rest = FilePath {
            is_absolute: self.is_absolute && base.components.len() == 0,
            components,
        };
        assert(rest@.components =~= self@.components.subrange(
            base@.components.len() as int,
            self@.components.len() as int,
        ));
        Some(rest)
    }

    /// Another path as seen from this one.
    pub fn join(&self, other: &FilePath) -> (joined: FilePath)
        ensures
            joined@ == self@.join(other@),
    {
        let len: usize = self.components.len();
        let other_len: usize = other.components.len();
        let self_prefix = len > 0 && matches!(&self.components[0], PathComponent::Prefix(_));
        let other_prefix = other_len > 0 && matches!(
            &other.components[0],
            PathComponent::Prefix(_)
        );
        let other_root = other_len > 0 && matches!(&other.components[0], PathComponent::RootDir);
        let other_cur = other_len > 0 && matches!(&other.components[0], PathComponent::CurDir);
        assert(len > 0 ==> self@.components[0] == self.components@[0]@);
        assert(other_len > 0 ==> other@.components[0] == other.components@[0]@);
        assert(self_prefix == self@.has_prefix());
        assert(other_prefix == other@.has_prefix());
        assert(other_root == other@.has_bare_root());
        if other.is_absolute || other_prefix {
            return other.copy();
        }
        let self_verbatim = len > 0 && match &self.components[0] {
            PathComponent::Prefix(name) => name.len() >= 4 && name[0] == 0x5c && name[1] == 0x5c
                && name[2] == 0x3f && name[3] == 0x5c,
            _ => false,
        };
        assert(self_verbatim == self@.is_verbatim());
        let mut components: Vec<PathComponent> = Vec::new();
        let mut is_absolute = self.is_absolute;
        if self_verbatim {
            if other_len > 0 {
                components = join_verbatim(&self.components, &other.components);
            } else {
                append_components(&mut components, &self.components, 0, len);
                assert(component_views(components@) =~= self@.components);
                if len == 1 {
                    let ghost before = components@;
                    components.push(PathComponent::RootDir);
                    assert(component_views(components@) =~= component_views(before).push(
                        ComponentView::RootDir,
                    ));
                }
            }
        } else if other_root {
            is_absolute = self_prefix;
            if self_prefix {
                append_components(&mut components, &self.components, 0, 1);
            }
            append_components(&mut components, &other.components, 0, other_len);
        } else {
            append_components(&mut components, &self.components, 0, len);
            let keeps = len == 0 || (len == 1 && self_prefix);
            let from: usize = if other_cur && !keeps { 1 } else { 0 };
            append_components(&mut components, &other.components, from, other_len);
        }
        let joined = FilePath { is_absolute, components };
        assert(joined@.components =~= self@.join(other@).components);
        joined
    }

    /// Whether the path holds names and `.` only.
    pub fn is_plain(&self) -> (r: bool)
        ensures
            r == self@.is_plain(),
    {
        let mut i: usize = 0;
        while i < self.components.len()
            invariant
                i <= self.components@.len(),
                forall|j: int|
                    0 <= j < i ==> (#[trigger] self@.components[j] is Normal
                        || self@.components[j] is CurDir),
            decreases self.components@.len() - i,
        {
            assert(self@.components[i as int] == self.components@[i as int]@);
            match &self.components[i] {
                PathComponent::Normal(_) => {},
                PathComponent::CurDir => {},
                _ => {
                    return false;
                },
            }
            i += 1;
        }
        true
    }
}

} // verus!
