//! Identifiers of entries: paths relative to the root of a store.
use vstd::prelude::*;
use crate::error::StoreError;
use crate::text::{chars_of, same_text, slice_of};

verus! {

/// One component of a path, as mathematics sees it.
pub ghost enum PathPart {
    /// The leading separator of an absolute path.
    RootDir,
    /// A leading `.`.
    CurDir,
    /// A `..`.
    ParentDir,
    /// An ordinary name.
    Normal(Seq<char>),
}

/// One component of a path.
#[derive(Debug, Clone, PartialEq, Eq)]
pub enum Component {
    /// The leading separator of an absolute path.
    RootDir,
    /// A leading `.`.
    CurDir,
    /// A `..`.
    ParentDir,
    /// An ordinary name.
    Normal(String),
}

impl View for Component {
    type V = PathPart;

    open spec fn view(&self) -> PathPart {
        match self {
            Component::RootDir => PathPart::RootDir,
            Component::CurDir => PathPart::CurDir,
            Component::ParentDir => PathPart::ParentDir,
            Component::Normal(s) => PathPart::Normal(s@),
        }
    }
}

/// The views of a list of components.
pub open spec fn parts_view(v: Seq<Component>) -> Seq<PathPart> {
    Seq::new(v.len(), |i: int| v[i]@)
}

/// The views of a list of names.
pub open spec fn names_view(v: Seq<&str>) -> Seq<Seq<char>> {
    Seq::new(v.len(), |i: int| v[i]@)
}

/// A path is absolute when it begins with the separator.
pub open spec fn is_absolute(p: Seq<char>) -> bool {
    p.len() > 0 && p[0] == '/'
}

/// What the stretch of `p` between two separators contributes to the components: nothing
/// when it is empty or a `.` that is not at the very beginning, else one component.
pub open spec fn part_between(p: Seq<char>, start: int, end: int) -> Seq<PathPart> {
    if end <= start {
        seq![]
    } else if end == start + 1 && p[start] == '.' {
        if start == 0 {
            seq![PathPart::CurDir]
        } else {
            seq![]
        }
    } else if end == start + 2 && p[start] == '.' && p[start + 1] == '.' {
        seq![PathPart::ParentDir]
    } else {
        seq![PathPart::Normal(p.subrange(start, end))]
    }
}

/// The components of `p` from position `pos` on, where the stretch that `pos` lies in
/// began at `start`.
pub open spec fn parts_from(p: Seq<char>, start: int, pos: int) -> Seq<PathPart>
    decreases p.len() - pos,
{
    if pos >= p.len() {
        part_between(p, start, p.len() as int)
    } else if p[pos] == '/' {
        part_between(p, start, pos) + parts_from(p, pos + 1, pos + 1)
    } else {
        parts_from(p, start, pos + 1)
    }
}

/// The components of a path: its root, if it is absolute, and then what stands between the
/// separators. Repeated and trailing separators count for nothing.
pub open spec fn path_parts(p: Seq<char>) -> Seq<PathPart> {
    if is_absolute(p) {
        seq![PathPart::RootDir] + parts_from(p, 0, 0)
    } else {
        parts_from(p, 0, 0)
    }
}

/// `path` appended to `base`: an absolute `path` replaces `base`; otherwise a separator is
/// put between the two unless `base` is empty or already ends in one.
pub open spec fn join(base: Seq<char>, path: Seq<char>) -> Seq<char> {
    if is_absolute(path) {
        path
    } else if base.len() > 0 && base.last() != '/' {
        base + seq!['/'] + path
    } else {
        base + path
    }
}

/// Whether the components at the front of `parts` are the ordinary names `names`: there are
/// as many components as names at least, and the first of them are these names, in order.
pub open spec fn in_collection(parts: Seq<PathPart>, names: Seq<Seq<char>>) -> bool {
    &&& names.len() <= parts.len()
    &&& forall|i: int| 0 <= i < names.len() ==> #[trigger] parts[i] == PathPart::Normal(names[i])
}

/// The text of one component.
pub open spec fn part_text(part: PathPart) -> Seq<char> {
    match part {
        PathPart::RootDir => Seq::empty(),
        PathPart::CurDir => seq!['.'],
        PathPart::ParentDir => seq!['.', '.'],
        PathPart::Normal(name) => name,
    }
}

/// The texts of `parts`, with one separator between each two.
pub open spec fn join_parts(parts: Seq<PathPart>) -> Seq<char>
    decreases parts.len(),
{
    if parts.len() == 0 {
        Seq::empty()
    } else if parts.len() == 1 {
        part_text(parts[0])
    } else {
        join_parts(parts.drop_last()) + seq!['/'] + part_text(parts.last())
    }
}

/// The path that is written with no more than `parts`: a separator first where the first
/// component is the root, then the other components with one separator between each two.
pub open spec fn unparse(parts: Seq<PathPart>) -> Seq<char> {
    if parts.len() > 0 && parts[0] is RootDir {
        seq!['/'] + join_parts(parts.subrange(1, parts.len() as int))
    } else {
        join_parts(parts)
    }
}

/// The path `p` without repeated or trailing separators and without a `.` in its middle.
pub open spec fn normalized(p: Seq<char>) -> Seq<char> {
    unparse(path_parts(p))
}

/// The path `p` without the separators at its front: the path seen from the root that it
/// names, if it names one.
pub open spec fn skip_separators(p: Seq<char>) -> Seq<char>
    decreases p.len(),
{
    if is_absolute(p) {
        skip_separators(p.drop_first())
    } else {
        p
    }
}

/// The form in which an id keeps the path `p`: relative, and normal.
pub open spec fn relative_form(p: Seq<char>) -> Seq<char> {
    normalized(skip_separators(p))
}

/// Whether `a` is the beginning of `b`.
pub open spec fn parts_prefix(a: Seq<PathPart>, b: Seq<PathPart>) -> bool {
    a.len() <= b.len() && b.subrange(0, a.len() as int) == a
}

/// Whether the path `p` lies at or below the path `base`.
pub open spec fn is_under(base: Seq<char>, p: Seq<char>) -> bool {
    parts_prefix(path_parts(base), path_parts(p))
}

/// What is left of `p` below `base`.
pub open spec fn stripped(base: Seq<char>, p: Seq<char>) -> Seq<char> {
    unparse(path_parts(p).subrange(path_parts(base).len() as int, path_parts(p).len() as int))
}

/// Whether the text of a component is not empty and does not begin with a separator.
pub open spec fn begins_with_name(part: PathPart) -> bool {
    part_text(part).len() > 0 && part_text(part)[0] != '/'
}

/// The components that stand between separators are names, `.` or `..`: none is the root,
/// and none is empty.
pub proof fn lemma_parts_begin_with_names(p: Seq<char>, start: int, pos: int)
    requires
        0 <= start <= pos <= p.len(),
        forall|k: int| start <= k < pos ==> p[k] != '/',
    ensures
        forall|i: int|
            0 <= i < parts_from(p, start, pos).len() ==> begins_with_name(
                #[trigger] parts_from(p, start, pos)[i],
            ),
    decreases p.len() - pos,
{
    let all = parts_from(p, start, pos);
    if pos >= p.len() {
        lemma_part_between_begins_with_name(p, start, p.len() as int);
        assert(all == part_between(p, start, p.len() as int));
    } else if p[pos] == '/' {
        lemma_part_between_begins_with_name(p, start, pos);
        lemma_parts_begin_with_names(p, pos + 1, pos + 1);
        let first = part_between(p, start, pos);
        let rest = parts_from(p, pos + 1, pos + 1);
        assert(all == first + rest);
        assert forall|i: int| 0 <= i < all.len() implies begins_with_name(#[trigger] all[i]) by {
            if i < first.len() {
                assert(all[i] == first[i]);
            } else {
                assert(all[i] == rest[i - first.len()]);
            }
        }
    } else {
        lemma_parts_begin_with_names(p, start, pos + 1);
        assert(all == parts_from(p, start, pos + 1));
    }
}

/// What a stretch without a separator contributes is a name, `.` or `..`.
proof fn lemma_part_between_begins_with_name(p: Seq<char>, start: int, end: int)
    requires
        0 <= start <= end <= p.len(),
        forall|k: int| start <= k < end ==> p[k] != '/',
    ensures
        forall|i: int|
            0 <= i < part_between(p, start, end).len() ==> begins_with_name(
                #[trigger] part_between(p, start, end)[i],
            ),
{
    if end > start {
        assert(p.subrange(start, end)[0] == p[start]);
    }
}

/// The text of components that are names, `.` or `..` begins with the text of the first.
pub proof fn lemma_join_parts_begins(parts: Seq<PathPart>)
    requires
        parts.len() > 0,
        forall|i: int| 0 <= i < parts.len() ==> begins_with_name(#[trigger] parts[i]),
    ensures
        join_parts(parts).len() > 0,
        join_parts(parts)[0] == part_text(parts[0])[0],
    decreases parts.len(),
{
    if parts.len() > 1 {
        let front = parts.drop_last();
        assert forall|i: int| 0 <= i < front.len() implies begins_with_name(
            #[trigger] front[i],
        ) by {
            assert(front[i] == parts[i]);
        }
        lemma_join_parts_begins(front);
        assert(front[0] == parts[0]);
    }
}

/// The normal form of a relative path is relative.
pub proof fn lemma_normalized_relative(p: Seq<char>)
    requires
        !is_absolute(p),
    ensures
        !is_absolute(normalized(p)),
{
    let parts = parts_from(p, 0, 0);
    lemma_parts_begin_with_names(p, 0, 0);
    if parts.len() > 0 {
        assert(begins_with_name(parts[0]));
        lemma_join_parts_begins(parts);
    }
}

/// Without the separators at its front, a path is relative.
pub proof fn lemma_skip_separators_relative(p: Seq<char>)
    ensures
        !is_absolute(skip_separators(p)),
        !is_absolute(p) ==> skip_separators(p) == p,
    decreases p.len(),
{
    if is_absolute(p) {
        lemma_skip_separators_relative(p.drop_first());
    }
}

/// The form in which an id keeps a path is relative and normal, and it is the normal form
/// of the path where the path is relative.
pub proof fn lemma_relative_form(p: Seq<char>)
    ensures
        !is_absolute(relative_form(p)),
        normalized(relative_form(p)) == relative_form(p),
        !is_absolute(p) ==> relative_form(p) == normalized(p),
{
    lemma_skip_separators_relative(p);
    lemma_normalized_relative(skip_separators(p));
    crate::normal_form::lemma_normalized_twice(skip_separators(p));
}

/// A relative path appended to a relative path is relative.
pub proof fn lemma_join_relative(base: Seq<char>, path: Seq<char>)
    requires
        !is_absolute(base),
        !is_absolute(path),
    ensures
        !is_absolute(join(base, path)),
{
}

/// An id lies in every collection that its leading names spell: where the names in `names`
/// are, in order, the first components of an id, the id is in the collection `names`.
pub proof fn lemma_in_collection_prefix(parts: Seq<PathPart>, names: Seq<Seq<char>>)
    requires
        names.len() <= parts.len(),
        forall|i: int| 0 <= i < names.len() ==> parts[i] == PathPart::Normal(#[trigger] names[i]),
    ensures
        in_collection(parts, names),
{
}

/// An id does not lie in a collection that differs from its components at some position.
pub proof fn lemma_in_collection_mismatch(parts: Seq<PathPart>, names: Seq<Seq<char>>, i: int)
    requires
        0 <= i < names.len(),
        i >= parts.len() || parts[i] != PathPart::Normal(names[i]),
    ensures
        !in_collection(parts, names),
{
}

/// `path` appended to `base`.
pub fn join_paths(base: &str, path: &str) -> (r: String)
    ensures
        r@ == join(base@, path@),
{
    let p = chars_of(path);
    if p.len() > 0 && p[0] == '/' {
        return path.to_owned();
    }
    let b = chars_of(base);
    let mut r = base.to_owned();
    if b.len() > 0 && b[b.len() - 1] != '/' {
        proof {
            reveal_strlit("/");
            assert("/"@ =~= seq!['/']);
        }
        r.append("/");
    }
    r.append(path);
    r
}

/// Appends to `out` what the stretch of `path` from `start` to `end` contributes.
fn push_part(path: &str, chars: &Vec<char>, start: usize, end: usize, out: &mut Vec<Component>)
    requires
        chars@ == path@,
        start <= chars@.len(),
        end <= chars@.len(),
    ensures
        parts_view(final(out)@) == parts_view(old(out)@) + part_between(
            path@,
            start as int,
            end as int,
        ),
{
    if end <= start {
        assert(parts_view(out@) =~= parts_view(out@) + Seq::<PathPart>::empty());
    } else if end - start == 1 && chars[start] == '.' {
        if start == 0 {
            out.push(Component::CurDir);
            assert(parts_view(out@) =~= parts_view(old(out)@) + seq![PathPart::CurDir]);
        } else {
            assert(parts_view(out@) =~= parts_view(out@) + Seq::<PathPart>::empty());
        }
    } else if end - start == 2 && chars[start] == '.' && chars[start + 1] == '.' {
        out.push(Component::ParentDir);
        assert(parts_view(out@) =~= parts_view(old(out)@) + seq![PathPart::ParentDir]);
    } else {
        let name = slice_of(path, start, end);
        out.push(Component::Normal(name));
        assert(parts_view(out@) =~= parts_view(old(out)@) + seq![
            PathPart::Normal(path@.subrange(start as int, end as int)),
        ]);
    }
}

/// The components of `path`.
pub fn components_of(path: &str) -> (r: Vec<Component>)
    ensures
        parts_view(r@) == path_parts(path@),
{
    let chars = chars_of(path);
    let n = chars.len();
    let mut out: Vec<Component> = Vec::new();
    if n > 0 && chars[0] == '/' {
        out.push(Component::RootDir);
    }
    assert(parts_view(out@) =~= if is_absolute(path@) {
        seq![PathPart::RootDir]
    } else {
        seq![]
    });
    let mut start: usize = 0;
    let mut pos: usize = 0;
    while pos < n
        invariant
            chars@ == path@,
            n == chars@.len(),
            start <= pos <= n,
            path_parts(path@) == parts_view(out@) + parts_from(path@, start as int, pos as int),
        decreases n - pos,
    {
        if chars[pos] == '/' {
            let ghost before = parts_view(out@);
            push_part(path, &chars, start, pos, &mut out);
            assert(path_parts(path@) =~= parts_view(out@) + parts_from(
                path@,
                pos as int + 1,
                pos as int + 1,
            )) by {
                assert(parts_from(path@, start as int, pos as int) == part_between(
                    path@,
                    start as int,
                    pos as int,
                ) + parts_from(path@, pos as int + 1, pos as int + 1));
                assert(path_parts(path@) == before + (part_between(
                    path@,
                    start as int,
                    pos as int,
                ) + parts_from(path@, pos as int + 1, pos as int + 1)));
            }
            start = pos + 1;
        }
        pos = pos + 1;
    }
    push_part(path, &chars, start, n, &mut out);
    out
}

/// The text of one component.
fn text_of_part(part: &Component) -> (r: String)
    ensures
        r@ == part_text(part@),
{
    match part {
        Component::RootDir => String::new(),
        Component::CurDir => {
            proof {
                reveal_strlit(".");
                assert("."@ =~= seq!['.']);
            }
            ".".to_owned()
        },
        Component::ParentDir => {
            proof {
                reveal_strlit("..");
                assert(".."@ =~= seq!['.', '.']);
            }
            "..".to_owned()
        },
        Component::Normal(name) => name.clone(),
    }
}

/// The path that is written with the components of `parts` from position `from` on.
pub fn unparse_from(parts: &Vec<Component>, from: usize) -> (r: String)
    requires
        from <= parts@.len(),
    ensures
        r@ == unparse(parts_view(parts@).subrange(from as int, parts@.len() as int)),
{
    let ghost all = parts_view(parts@);
    let ghost tail = all.subrange(from as int, parts@.len() as int);
    let mut out = String::new();
    let mut i: usize = from;
    let mut begin: usize = from;
    if from < parts.len() {
        assert(tail[0] == parts@[from as int]@);
        match &parts[from] {
            Component::RootDir => {
                proof {
                    reveal_strlit("/");
                    assert("/"@ =~= seq!['/']);
                }
                out.append("/");
                i = from + 1;
                begin = from + 1;
            },
            _ => {},
        }
    }
    let ghost body = all.subrange(begin as int, parts@.len() as int);
    let ghost lead = out@;
    proof {
        if begin > from {
            assert(body =~= tail.subrange(1, tail.len() as int));
        } else {
            assert(body =~= tail);
        }
        assert(unparse(tail) == lead + join_parts(body));
        assert(body.take(0) =~= Seq::<PathPart>::empty());
        assert(lead + join_parts(body.take(0)) =~= lead);
    }
    while i < parts.len()
        invariant
            from <= begin <= i <= parts@.len(),
            all == parts_view(parts@),
            body == all.subrange(begin as int, parts@.len() as int),
            out@ == lead + join_parts(body.take(i - begin)),
        decreases parts@.len() - i,
    {
        let ghost done = body.take(i - begin);
        let ghost next = body.take(i - begin + 1);
        proof {
            assert(next.drop_last() =~= done);
            assert(next.last() == parts@[i as int]@);
        }
        if i > begin {
            proof {
                reveal_strlit("/");
                assert("/"@ =~= seq!['/']);
            }
            out.append("/");
        }
        let piece = text_of_part(&parts[i]);
        out.append(piece.as_str());
        proof {
            if i > begin {
                assert(out@ =~= lead + (join_parts(done) + seq!['/'] + part_text(next.last())));
            } else {
                assert(done.len() == 0);
                assert(next.len() == 1);
                assert(next[0] == next.last());
                assert(out@ =~= lead + part_text(next[0]));
            }
        }
        i = i + 1;
    }
    proof {
        assert(body.take(parts@.len() - begin) =~= body);
    }
    out
}

/// The path `path` without repeated or trailing separators and without a `.` in its middle.
pub fn normalize(path: &str) -> (r: String)
    ensures
        r@ == normalized(path@),
{
    let parts = components_of(path);
    proof {
        assert(parts_view(parts@).subrange(0, parts@.len() as int) =~= parts_view(parts@));
    }
    unparse_from(&parts, 0)
}

/// Whether two components are the same.
fn same_part(a: &Component, b: &Component) -> (r: bool)
    ensures
        r == (a@ == b@),
{
    match (a, b) {
        (Component::RootDir, Component::RootDir) => true,
        (Component::CurDir, Component::CurDir) => true,
        (Component::ParentDir, Component::ParentDir) => true,
        (Component::Normal(x), Component::Normal(y)) => same_text(x.as_str(), y.as_str()),
        _ => false,
    }
}

/// What is left of the path `full` below the path `base`; nothing where `full` does not lie
/// at or below `base`.
pub fn strip_prefix(base: &str, full: &str) -> (r: Option<String>)
    ensures
        match r {
            Some(rest) => is_under(base@, full@) && rest@ == stripped(base@, full@),
            None => !is_under(base@, full@),
        },
{
    let b = components_of(base);
    let f = components_of(full);
    if b.len() > f.len() {
        return None;
    }
    let mut i: usize = 0;
    while i < b.len()
        invariant
            i <= b@.len() <= f@.len(),
            parts_view(b@) == path_parts(base@),
            parts_view(f@) == path_parts(full@),
            forall|j: int| 0 <= j < i ==> (#[trigger] b@[j])@ == f@[j]@,
        decreases b@.len() - i,
    {
        if !same_part(&b[i], &f[i]) {
            proof {
                let pb = path_parts(base@);
                let pf = path_parts(full@);
                assert(pb[i as int] == b@[i as int]@);
                assert(pf[i as int] == f@[i as int]@);
                if pf.subrange(0, pb.len() as int) == pb {
                    assert(pf.subrange(0, pb.len() as int)[i as int] == pf[i as int]);
                }
            }
            return None;
        }
        i = i + 1;
    }
    proof {
        let pb = path_parts(base@);
        let pf = path_parts(full@);
        assert forall|j: int| 0 <= j < pb.len() implies pf.subrange(0, pb.len() as int)[j]
            == pb[j] by {
            assert(pb[j] == b@[j]@);
            assert(pf[j] == f@[j]@);
        }
        assert(pf.subrange(0, pb.len() as int) =~= pb);
    }
    Some(unparse_from(&f, b.len()))
}

/// The path `path` without the separators at its front.
pub fn skip_leading_separators(path: &str) -> (r: String)
    ensures
        r@ == skip_separators(path@),
{
    let chars = chars_of(path);
    let n = chars.len();
    let mut k: usize = 0;
    proof {
        assert(path@.subrange(0, n as int) =~= path@);
    }
    while k < n && chars[k] == '/'
        invariant
            chars@ == path@,
            n == chars@.len(),
            k <= n,
            skip_separators(path@) == skip_separators(path@.subrange(k as int, n as int)),
        decreases n - k,
    {
        proof {
            let rest = path@.subrange(k as int, n as int);
            assert(rest[0] == path@[k as int]);
            assert(rest.drop_first() =~= path@.subrange(k as int + 1, n as int));
        }
        k = k + 1;
    }
    proof {
        let rest = path@.subrange(k as int, n as int);
        if k < n {
            assert(rest[0] == path@[k as int]);
        }
        assert(!is_absolute(rest));
    }
    slice_of(path, k, n)
}

/// The form in which an id keeps the path `path`: relative, and normal.
fn relative(path: &str) -> (r: String)
    ensures
        r@ == relative_form(path@),
{
    let below = skip_leading_separators(path);
    normalize(below.as_str())
}

/// The name of one entry of a store: a path that is relative to the root of the store.
#[derive(Debug, Clone, PartialEq, Eq, Hash)]
pub struct StoreId {
    path: String,
}

impl View for StoreId {
    type V = Seq<char>;

    closed spec fn view(&self) -> Seq<char> {
        self.path@
    }
}

impl StoreId {
    /// An id is relative: its path does not begin at a root.
    pub open spec fn is_relative(&self) -> bool {
        !is_absolute(self@)
    }

    /// An id is in normal form: its path is its own normal form.
    pub open spec fn is_normal(&self) -> bool {
        normalized(self@) == self@
    }

    /// Makes an id of the path `id`, unless `id` is absolute. The id is the path in its
    /// normal form.
    pub fn new(id: String) -> (r: Result<StoreId, StoreError>)
        ensures
            is_absolute(id@) ==> r == Err::<StoreId, StoreError>(StoreError::InvalidId),
            !is_absolute(id@) ==> r is Ok && r->Ok_0@ == normalized(id@) && r->Ok_0.is_relative()
                && r->Ok_0.is_normal(),
    {
        let chars = chars_of(id.as_str());
        if chars.len() > 0 && chars[0] == '/' {
            Err(StoreError::InvalidId)
        } else {
            proof {
                lemma_normalized_relative(id@);
                crate::normal_form::lemma_normalized_twice(id@);
            }
            Ok(StoreId { path: normalize(id.as_str()) })
        }
    }

    /// Pairs the id with the root of a store.
    pub fn with_base<'a>(self, base: &'a String) -> (r: StoreIdWithBase<'a>)
        ensures
            r.base() == base@,
            r.local() == self@,
    {
        StoreIdWithBase(base, self.path)
    }

    /// The id as text.
    pub fn to_str(&self) -> (r: Result<String, StoreError>)
        ensures
            r is Ok,
            r->Ok_0@ == self@,
    {
        Ok(self.path.clone())
    }

    /// The id as text, for display.
    pub fn local_display_string(&self) -> (r: String)
        ensures
            r@ == self@,
    {
        self.path.clone()
    }

    /// The components of the id.
    pub fn components(&self) -> (r: Vec<Component>)
        ensures
            parts_view(r@) == path_parts(self@),
    {
        components_of(self.path.as_str())
    }

    /// The path from the root of the store to the entry.
    pub fn local(&self) -> (r: &String)
        ensures
            r@ == self@,
    {
        &self.path
    }

    /// Whether the entry lies in the collection `colls`: whether the first components of the
    /// id are the names in `colls`, in order. A component that is no ordinary name equals no
    /// name.
    pub fn is_in_collection(&self, colls: &[&str]) -> (r: bool)
        ensures
            r == in_collection(path_parts(self@), names_view(colls@)),
    {
        let comps = self.components();
        assert(parts_view(comps@).len() == comps@.len());
        if colls.len() > comps.len() {
            return false;
        }
        let mut i: usize = 0;
        while i < colls.len()
            invariant
                parts_view(comps@) == path_parts(self@),
                colls@.len() <= comps@.len(),
                i <= colls@.len(),
                forall|j: int|
                    0 <= j < i ==> #[trigger] path_parts(self@)[j] == PathPart::Normal(
                        names_view(colls@)[j],
                    ),
            decreases colls@.len() - i,
        {
            assert(parts_view(comps@)[i as int] == comps@[i as int]@);
            assert(names_view(colls@)[i as int] == colls@[i as int]@);
            let matches = match &comps[i] {
                Component::Normal(s) => same_text(s.as_str(), colls[i]),
                _ => false,
            };
            if !matches {
                assert(path_parts(self@)[i as int] != PathPart::Normal(
                    names_view(colls@)[i as int],
                ));
                return false;
            }
            i = i + 1;
        }
        assert(parts_view(comps@).len() == comps@.len());
        true
    }

    /// Appends `path` to the id. The id is then the longer path, relative and in its normal
    /// form: what is appended is `path` as seen from the root that it names, if it names one,
    /// so that the id stays below the root of its store.
    pub fn local_push(&mut self, path: &str)
        ensures
            final(self)@ == relative_form(join(old(self)@, skip_separators(path@))),
            old(self).is_relative() ==> final(self)@ == normalized(
                join(old(self)@, skip_separators(path@)),
            ),
            final(self).is_relative(),
            final(self).is_normal(),
    {
        let below = skip_leading_separators(path);
        let joined = join_paths(self.path.as_str(), below.as_str());
        proof {
            lemma_relative_form(joined@);
            lemma_skip_separators_relative(path@);
            if self.is_relative() {
                lemma_join_relative(self@, below@);
            }
        }
        self.path = relative(joined.as_str());
    }

    /// Whether two ids name the same entry.
    pub fn same(&self, other: &StoreId) -> (r: bool)
        ensures
            r == (self@ == other@),
    {
        self.path == other.path
    }

    /// A copy of the id.
    pub fn duplicate(&self) -> (r: StoreId)
        ensures
            r@ == self@,
    {
        StoreId { path: self.path.clone() }
    }
}

/// The id that the path `p` stands for: its normal form, unless it is absolute.
pub open spec fn id_of_path(p: Seq<char>) -> Result<Seq<char>, StoreError> {
    if is_absolute(p) {
        Err(StoreError::InvalidId)
    } else {
        Ok(normalized(p))
    }
}

/// What can be turned into an id.
pub trait IntoStoreId {
    /// The id that this turns into, or why it turns into none. It is for the implementor to
    /// say what it is.
    open spec fn id_text(&self) -> Result<Seq<char>, StoreError> {
        arbitrary()
    }

    /// Turns this into an id.
    fn into_storeid(self) -> (r: Result<StoreId, StoreError>)
        ensures
            id_result_view(r) == self.id_text(),
    ;
}

impl IntoStoreId for StoreId {
    open spec fn id_text(&self) -> Result<Seq<char>, StoreError> {
        Ok(self@)
    }

    fn into_storeid(self) -> (r: Result<StoreId, StoreError>) {
        Ok(self)
    }
}

impl IntoStoreId for String {
    open spec fn id_text(&self) -> Result<Seq<char>, StoreError> {
        id_of_path(self@)
    }

    fn into_storeid(self) -> (r: Result<StoreId, StoreError>) {
        StoreId::new(self)
    }
}

impl<'a> IntoStoreId for &'a str {
    open spec fn id_text(&self) -> Result<Seq<char>, StoreError> {
        id_of_path(self@)
    }

    fn into_storeid(self) -> (r: Result<StoreId, StoreError>) {
        StoreId::new(self.to_owned())
    }
}

/// An id together with the root of the store that it belongs to. The pairing serves to find
/// the entry at the backend and is not kept.
#[derive(Debug, Clone, PartialEq, Eq, Hash)]
pub struct StoreIdWithBase<'a>(pub &'a String, pub String);

impl<'a> StoreIdWithBase<'a> {
    /// The root of the store.
    pub open spec fn base(&self) -> Seq<char> {
        self.0@
    }

    /// The path below the root.
    pub open spec fn local(&self) -> Seq<char> {
        self.1@
    }

    /// Pairs a root with a path below it.
    pub fn new(base: &'a String, path: String) -> (r: Self)
        ensures
            r.base() == base@,
            r.local() == path@,
    {
        StoreIdWithBase(base, path)
    }

    /// The id alone: the path below the root, relative and in its normal form.
    pub fn without_base(self) -> (r: StoreId)
        ensures
            r@ == relative_form(self.local()),
            r.is_relative(),
            r.is_normal(),
    {
        proof {
            lemma_relative_form(self.local());
        }
        StoreId { path: relative(self.1.as_str()) }
    }

    /// The place of the entry at the backend: the path below the root, appended to the root.
    pub fn into_pathbuf(self) -> (r: Result<String, StoreError>)
        ensures
            r is Ok,
            r->Ok_0@ == join(self.base(), self.local()),
    {
        Ok(join_paths(self.0.as_str(), self.1.as_str()))
    }

    /// The place of the entry at the backend, as text.
    pub fn to_str(&self) -> (r: Result<String, StoreError>)
        ensures
            r is Ok,
            r->Ok_0@ == join(self.base(), self.local()),
    {
        Ok(join_paths(self.0.as_str(), self.1.as_str()))
    }

    /// The id of the entry that lives at `full_path` in the store at `store_part`. It is an
    /// error if `full_path` does not lie at or below `store_part`.
    pub fn from_full_path(store_part: &'a String, full_path: &str) -> (r: Result<
        StoreIdWithBase<'a>,
        StoreError,
    >)
        ensures
            match r {
                Ok(id) => is_under(store_part@, full_path@) && id.base() == store_part@
                    && id.local() == stripped(store_part@, full_path@),
                Err(e) => e == StoreError::InvalidId && !is_under(store_part@, full_path@),
            },
    {
        match strip_prefix(store_part.as_str(), full_path) {
            Some(rest) => Ok(StoreIdWithBase(store_part, rest)),
            None => Err(StoreError::InvalidId),
        }
    }
}

/// The path of an entry that belongs to one module: the name of the module, then the path
/// of the entry within the module.
#[derive(Debug, Clone, PartialEq, Eq)]
pub struct ModuleEntryPath {
    path: String,
}

impl View for ModuleEntryPath {
    type V = Seq<char>;

    closed spec fn view(&self) -> Seq<char> {
        self.path@
    }
}

impl ModuleEntryPath {
    /// The path `pa` within the module `module`.
    pub fn new(module: &str, pa: &str) -> (r: ModuleEntryPath)
        ensures
            r@ == join(module@, pa@),
    {
        ModuleEntryPath { path: join_paths(module, pa) }
    }
}

impl<'a> IntoStoreId for StoreIdWithBase<'a> {
    open spec fn id_text(&self) -> Result<Seq<char>, StoreError> {
        Ok(relative_form(self.local()))
    }

    fn into_storeid(self) -> (r: Result<StoreId, StoreError>) {
        Ok(self.without_base())
    }
}

impl IntoStoreId for ModuleEntryPath {
    open spec fn id_text(&self) -> Result<Seq<char>, StoreError> {
        id_of_path(self@)
    }

    fn into_storeid(self) -> (r: Result<StoreId, StoreError>) {
        StoreId::new(self.path)
    }
}

/// What an iterator over ids hands out for `r`.
pub open spec fn id_result_view(r: Result<StoreId, StoreError>) -> Result<Seq<char>, StoreError> {
    match r {
        Ok(id) => Ok(id@),
        Err(e) => Err(e),
    }
}

/// A sequence of ids, or of the errors met while the ids were found, that is handed out one
/// by one.
#[derive(Debug)]
pub struct StoreIdIterator {
    items: Vec<Result<StoreId, StoreError>>,
    pos: usize,
}

impl StoreIdIterator {
    /// What is still to be handed out, in order.
    pub closed spec fn remaining(&self) -> Seq<Result<Seq<char>, StoreError>> {
        Seq::new(
            if self.pos <= self.items@.len() {
                (self.items@.len() - self.pos) as nat
            } else {
                0
            },
            |i: int| id_result_view(self.items@[self.pos + i]),
        )
    }

    /// An iterator that hands out `items` in order.
    pub fn new(items: Vec<Result<StoreId, StoreError>>) -> (r: StoreIdIterator)
        ensures
            r.remaining().len() == items@.len(),
            forall|i: int|
                0 <= i < items@.len() ==> #[trigger] r.remaining()[i] == id_result_view(items@[i]),
    {
        StoreIdIterator { items, pos: 0 }
    }

    /// Hands out the next id, if one is left.
    pub fn next(&mut self) -> (r: Option<Result<StoreId, StoreError>>)
        ensures
            match r {
                Some(item) => old(self).remaining().len() > 0 && id_result_view(item) == old(self).remaining()[0] && final(self).remaining() == old(self).remaining().drop_first(),
                None => old(self).remaining().len() == 0 && final(self).remaining() == old(self).remaining(),
            },
    {
        if self.pos < self.items.len() {
            let item = match &self.items[self.pos] {
                Ok(id) => Ok(id.duplicate()),
                Err(e) => Err(*e),
            };
            self.pos = self.pos + 1;
            proof {
                assert(self.remaining() =~= old(self).remaining().drop_first());
            }
            Some(item)
        } else {
            None
        }
    }
}

} // verus!
