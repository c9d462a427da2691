//! Facts about the normal form of paths: a path and its normal form have the same
//! components, and a normal form is its own normal form.
use vstd::prelude::*;
use crate::storeid::{
    in_collection, is_absolute, is_under, join, join_parts, lemma_join_parts_begins, normalized,
    part_between, part_text, parts_from, path_parts, stripped, unparse, PathPart,
};

verus! {

/// A name that stands for itself as a component: it is not empty, holds no separator, and is
/// neither `.` nor `..`.
pub open spec fn plain_name(name: Seq<char>) -> bool {
    &&& name.len() > 0
    &&& forall|i: int| 0 <= i < name.len() ==> name[i] != '/'
    &&& !(name.len() == 1 && name[0] == '.')
    &&& !(name.len() == 2 && name[0] == '.' && name[1] == '.')
}

/// Whether `parts` are components as a path has them, where only the first may be `.` and
/// then only if `dot_first` is set: every name is plain, and none is the root.
pub open spec fn segments(parts: Seq<PathPart>, dot_first: bool) -> bool {
    forall|i: int|
        0 <= i < parts.len() ==> match #[trigger] parts[i] {
            PathPart::RootDir => false,
            PathPart::CurDir => i == 0 && dot_first,
            PathPart::ParentDir => true,
            PathPart::Normal(name) => plain_name(name),
        }
}

/// Whether `parts` are components as a path has them: the root and `.` stand first if at
/// all, and every name is plain.
pub open spec fn canonical(parts: Seq<PathPart>) -> bool {
    forall|i: int|
        0 <= i < parts.len() ==> match #[trigger] parts[i] {
            PathPart::RootDir => i == 0,
            PathPart::CurDir => i == 0,
            PathPart::ParentDir => true,
            PathPart::Normal(name) => plain_name(name),
        }
}

/// What a stretch without a separator contributes is a component as a path has it.
proof fn lemma_part_between_segments(p: Seq<char>, start: int, end: int)
    requires
        0 <= start <= end <= p.len(),
        forall|k: int| start <= k < end ==> p[k] != '/',
    ensures
        segments(part_between(p, start, end), start == 0),
        part_between(p, start, end).len() <= 1,
{
    if end > start {
        let name = p.subrange(start, end);
        assert(name[0] == p[start]);
        if end >= start + 2 {
            assert(name[1] == p[start + 1]);
        }
        assert forall|i: int| 0 <= i < name.len() implies name[i] != '/' by {
            assert(name[i] == p[start + i]);
        }
    }
}

/// The components that stand between separators are components as a path has them.
proof fn lemma_parts_from_segments(p: Seq<char>, start: int, pos: int)
    requires
        0 <= start <= pos <= p.len(),
        forall|k: int| start <= k < pos ==> p[k] != '/',
    ensures
        segments(parts_from(p, start, pos), start == 0),
    decreases p.len() - pos,
{
    let all = parts_from(p, start, pos);
    if pos >= p.len() {
        lemma_part_between_segments(p, start, p.len() as int);
        assert(all == part_between(p, start, p.len() as int));
    } else if p[pos] == '/' {
        lemma_part_between_segments(p, start, pos);
        lemma_parts_from_segments(p, pos + 1, pos + 1);
        let first = part_between(p, start, pos);
        let rest = parts_from(p, pos + 1, pos + 1);
        assert(all == first + rest);
        assert forall|i: int| 0 <= i < all.len() implies match #[trigger] all[i] {
            PathPart::RootDir => false,
            PathPart::CurDir => i == 0 && start == 0,
            PathPart::ParentDir => true,
            PathPart::Normal(name) => plain_name(name),
        } by {
            if i < first.len() {
                assert(all[i] == first[i]);
            } else {
                assert(all[i] == rest[i - first.len()]);
            }
        }
    } else {
        lemma_parts_from_segments(p, start, pos + 1);
        assert(all == parts_from(p, start, pos + 1));
    }
}

/// The components of a path are components as a path has them.
pub proof fn lemma_path_parts_canonical(p: Seq<char>)
    ensures
        canonical(path_parts(p)),
{
    if is_absolute(p) {
        lemma_parts_from_segments(p, 1, 1);
        let rest = parts_from(p, 1, 1);
        assert(part_between(p, 0, 0) =~= Seq::<PathPart>::empty());
        assert(parts_from(p, 0, 0) == part_between(p, 0, 0) + rest);
        assert(parts_from(p, 0, 0) =~= rest);
        let all = path_parts(p);
        assert(all == seq![PathPart::RootDir] + rest);
        assert forall|i: int| 0 <= i < all.len() implies match #[trigger] all[i] {
            PathPart::RootDir => i == 0,
            PathPart::CurDir => i == 0,
            PathPart::ParentDir => true,
            PathPart::Normal(name) => plain_name(name),
        } by {
            if i > 0 {
                assert(all[i] == rest[i - 1]);
            }
        }
    } else {
        lemma_parts_from_segments(p, 0, 0);
    }
}

/// Where no separator follows, what is left is one stretch.
proof fn lemma_last_stretch(s: Seq<char>, start: int, pos: int)
    requires
        0 <= start <= pos <= s.len(),
        forall|k: int| pos <= k < s.len() ==> s[k] != '/',
    ensures
        parts_from(s, start, pos) == part_between(s, start, s.len() as int),
    decreases s.len() - pos,
{
    if pos < s.len() {
        lemma_last_stretch(s, start, pos + 1);
    }
}

/// The stretch between two places contributes the same to a text and to a longer text that
/// begins with it.
proof fn lemma_part_between_prefix(a: Seq<char>, ab: Seq<char>, start: int, end: int)
    requires
        0 <= start <= end <= a.len() <= ab.len(),
        forall|k: int| 0 <= k < a.len() ==> a[k] == ab[k],
    ensures
        part_between(ab, start, end) == part_between(a, start, end),
{
    if end > start {
        assert(ab.subrange(start, end) =~= a.subrange(start, end));
    }
}

/// The components of a text, a separator and more text are the components of the text, and
/// then those of what follows the separator.
proof fn lemma_parts_of_concat(a: Seq<char>, b: Seq<char>, start: int, pos: int)
    requires
        0 <= start <= pos <= a.len(),
    ensures
        parts_from(a + seq!['/'] + b, start, pos) == parts_from(a, start, pos) + parts_from(
            a + seq!['/'] + b,
            a.len() as int + 1,
            a.len() as int + 1,
        ),
    decreases a.len() - pos,
{
    let ab = a + seq!['/'] + b;
    let tail = parts_from(ab, a.len() as int + 1, a.len() as int + 1);
    assert(forall|k: int| 0 <= k < a.len() ==> a[k] == ab[k]);
    assert(ab[a.len() as int] == '/');
    if pos == a.len() {
        lemma_part_between_prefix(a, ab, start, pos);
        assert(parts_from(ab, start, pos) == part_between(ab, start, pos) + tail);
        assert(parts_from(a, start, pos) == part_between(a, start, a.len() as int));
    } else if a[pos] == '/' {
        lemma_part_between_prefix(a, ab, start, pos);
        lemma_parts_of_concat(a, b, pos + 1, pos + 1);
        let first = part_between(a, start, pos);
        let middle = parts_from(a, pos + 1, pos + 1);
        assert(parts_from(ab, start, pos) == first + parts_from(ab, pos + 1, pos + 1));
        assert(parts_from(a, start, pos) == first + middle);
        assert(first + (middle + tail) =~= (first + middle) + tail);
    } else {
        lemma_parts_of_concat(a, b, start, pos + 1);
        assert(parts_from(ab, start, pos) == parts_from(ab, start, pos + 1));
        assert(parts_from(a, start, pos) == parts_from(a, start, pos + 1));
    }
}

/// The text of a component that is a plain name or `..` holds no separator.
proof fn lemma_part_text_plain(part: PathPart)
    requires
        part is ParentDir || part is CurDir || (part is Normal && plain_name(part->Normal_0)),
    ensures
        part_text(part).len() > 0,
        forall|k: int| 0 <= k < part_text(part).len() ==> part_text(part)[k] != '/',
{
}

/// What the text of one component, written after `pre`, contributes is that component.
proof fn lemma_one_part(pre: Seq<char>, part: PathPart)
    requires
        part is ParentDir || (part is CurDir && pre.len() == 0) || (part is Normal && plain_name(
            part->Normal_0,
        )),
    ensures
        parts_from(pre + part_text(part), pre.len() as int, pre.len() as int) == seq![part],
{
    let t = part_text(part);
    let s = pre + t;
    lemma_part_text_plain(part);
    assert forall|k: int| pre.len() <= k < s.len() implies s[k] != '/' by {
        assert(s[k] == t[k - pre.len()]);
    }
    lemma_last_stretch(s, pre.len() as int, pre.len() as int);
    assert(s.subrange(pre.len() as int, s.len() as int) =~= t);
    assert(s[pre.len() as int] == t[0]);
    if t.len() >= 2 {
        assert(s[pre.len() as int + 1] == t[1]);
    }
    assert(part_between(s, pre.len() as int, s.len() as int) =~= seq![part]);
}

/// The components of the text of `parts`, written after `pre`, are `parts`.
proof fn lemma_parts_of_join(pre: Seq<char>, parts: Seq<PathPart>)
    requires
        segments(parts, pre.len() == 0),
    ensures
        parts_from(pre + join_parts(parts), pre.len() as int, pre.len() as int) == parts,
    decreases parts.len(),
{
    let n = pre.len() as int;
    if parts.len() == 0 {
        assert(pre + join_parts(parts) =~= pre);
        assert(parts_from(pre, n, n) =~= parts);
    } else if parts.len() == 1 {
        assert(segments(parts, pre.len() == 0));
        let part = parts[0];
        lemma_one_part(pre, part);
        assert(seq![part] =~= parts);
    } else {
        let front = parts.drop_last();
        let last = parts.last();
        assert forall|i: int| 0 <= i < front.len() implies match #[trigger] front[i] {
            PathPart::RootDir => false,
            PathPart::CurDir => i == 0 && pre.len() == 0,
            PathPart::ParentDir => true,
            PathPart::Normal(name) => plain_name(name),
        } by {
            assert(front[i] == parts[i]);
        }
        lemma_parts_of_join(pre, front);
        let a = pre + join_parts(front);
        let t = part_text(last);
        let s = pre + join_parts(parts);
        assert(s =~= a + seq!['/'] + t);
        lemma_parts_of_concat(a, t, n, n);
        assert(parts[parts.len() - 1] == last);
        let before = a + seq!['/'];
        lemma_one_part(before, last);
        assert(before + t =~= s);
        assert(before.len() == a.len() + 1);
        assert(front + seq![last] =~= parts);
    }
}

/// The components of the path that is written with `parts` are `parts`.
pub proof fn lemma_parts_of_unparse(parts: Seq<PathPart>)
    requires
        canonical(parts),
    ensures
        path_parts(unparse(parts)) == parts,
{
    if parts.len() > 0 && parts[0] is RootDir {
        let rest = parts.subrange(1, parts.len() as int);
        assert forall|i: int| 0 <= i < rest.len() implies match #[trigger] rest[i] {
            PathPart::RootDir => false,
            PathPart::CurDir => false,
            PathPart::ParentDir => true,
            PathPart::Normal(name) => plain_name(name),
        } by {
            assert(rest[i] == parts[i + 1]);
        }
        let pre = seq!['/'];
        let s = pre + join_parts(rest);
        lemma_parts_of_join(pre, rest);
        assert(s[0] == '/');
        assert(part_between(s, 0, 0) =~= Seq::<PathPart>::empty());
        assert(parts_from(s, 0, 0) == part_between(s, 0, 0) + parts_from(s, 1, 1));
        assert(parts_from(s, 0, 0) =~= rest);
        assert(seq![PathPart::RootDir] + rest =~= parts);
    } else {
        let s = join_parts(parts);
        assert forall|i: int| 0 <= i < parts.len() implies match #[trigger] parts[i] {
            PathPart::RootDir => false,
            PathPart::CurDir => i == 0,
            PathPart::ParentDir => true,
            PathPart::Normal(name) => plain_name(name),
        } by {}
        lemma_parts_of_join(Seq::<char>::empty(), parts);
        assert(Seq::<char>::empty() + s =~= s);
        if parts.len() > 0 {
            assert forall|i: int| 0 <= i < parts.len() implies crate::storeid::begins_with_name(
                #[trigger] parts[i],
            ) by {
                lemma_part_text_plain(parts[i]);
            }
            lemma_join_parts_begins(parts);
        }
    }
}

/// A path and its normal form have the same components.
pub proof fn lemma_normalized_parts(p: Seq<char>)
    ensures
        path_parts(normalized(p)) == path_parts(p),
{
    lemma_path_parts_canonical(p);
    lemma_parts_of_unparse(path_parts(p));
}

/// The normal form of a path is its own normal form.
pub proof fn lemma_normalized_twice(p: Seq<char>)
    ensures
        normalized(normalized(p)) == normalized(p),
{
    lemma_normalized_parts(p);
}

/// Whether a path begins with the component `.`.
pub open spec fn leading_dot(p: Seq<char>) -> bool {
    p.len() >= 1 && p[0] == '.' && (p.len() == 1 || p[1] == '/')
}

/// A stretch contributes the same to a text and to the text written after `pre`, unless it
/// is a `.` at the very beginning of the text.
proof fn lemma_part_between_shift(pre: Seq<char>, b: Seq<char>, start: int, end: int)
    requires
        pre.len() > 0,
        0 <= start <= end <= b.len(),
        start > 0 || !(end == 1 && b[0] == '.'),
    ensures
        part_between(pre + b, pre.len() + start, pre.len() + end) == part_between(b, start, end),
{
    let s = pre + b;
    let n = pre.len() as int;
    if end > start {
        assert(s[n + start] == b[start]);
        if end >= start + 2 {
            assert(s[n + start + 1] == b[start + 1]);
        }
        assert(s.subrange(n + start, n + end) =~= b.subrange(start, end));
    }
}

/// A text has the same components when it is written after `pre`, unless it begins with the
/// component `.`.
proof fn lemma_parts_shift(pre: Seq<char>, b: Seq<char>, start: int, pos: int)
    requires
        pre.len() > 0,
        0 <= start <= pos <= b.len(),
        start > 0 || !leading_dot(b),
    ensures
        parts_from(pre + b, pre.len() + start, pre.len() + pos) == parts_from(b, start, pos),
    decreases b.len() - pos,
{
    let s = pre + b;
    let n = pre.len() as int;
    if pos >= b.len() {
        lemma_part_between_shift(pre, b, start, b.len() as int);
        assert(parts_from(s, n + start, n + pos) == part_between(s, n + start, s.len() as int));
    } else {
        assert(s[n + pos] == b[pos]);
        if b[pos] == '/' {
            lemma_part_between_shift(pre, b, start, pos);
            lemma_parts_shift(pre, b, pos + 1, pos + 1);
            assert(parts_from(s, n + start, n + pos) == part_between(s, n + start, n + pos)
                + parts_from(s, n + pos + 1, n + pos + 1));
        } else {
            lemma_parts_shift(pre, b, start, pos + 1);
            assert(parts_from(s, n + start, n + pos) == parts_from(s, n + start, n + pos + 1));
        }
    }
}

/// The components of a relative path that is appended to a path are the components of the
/// one and then those of the other, unless the relative path begins with the component `.`
/// and is appended to a path that is not empty.
pub proof fn lemma_parts_of_joined(base: Seq<char>, path: Seq<char>)
    requires
        !is_absolute(path),
        base.len() == 0 || !leading_dot(path),
    ensures
        path_parts(join(base, path)) == path_parts(base) + path_parts(path),
{
    let j = join(base, path);
    if base.len() == 0 {
        assert(j =~= path);
        assert(path_parts(base) =~= Seq::<PathPart>::empty());
        assert(path_parts(base) + path_parts(path) =~= path_parts(path));
    } else {
        let tail = parts_from(path, 0, 0);
        assert(path_parts(path) == tail);
        if base.last() != '/' {
            let pre = base + seq!['/'];
            assert(j =~= pre + path);
            lemma_parts_of_concat(base, path, 0, 0);
            lemma_parts_shift(pre, path, 0, 0);
            assert(parts_from(j, 0, 0) == parts_from(base, 0, 0) + tail);
        } else {
            let front = base.drop_last();
            let none = Seq::<char>::empty();
            assert(base =~= front + seq!['/'] + none);
            assert(j =~= front + seq!['/'] + path);
            lemma_parts_of_concat(front, path, 0, 0);
            lemma_parts_of_concat(front, none, 0, 0);
            lemma_parts_shift(base, path, 0, 0);
            assert(j =~= base + path);
            assert(parts_from(base, base.len() as int, base.len() as int)
                =~= Seq::<PathPart>::empty());
            assert(parts_from(base, 0, 0) =~= parts_from(front, 0, 0));
            assert(parts_from(j, 0, 0) == parts_from(front, 0, 0) + tail);
        }
        assert(j[0] == base[0]);
        if is_absolute(base) {
            assert(seq![PathPart::RootDir] + (parts_from(base, 0, 0) + tail) =~= (seq![
                PathPart::RootDir,
            ] + parts_from(base, 0, 0)) + tail);
        }
    }
}

/// What is left of a path below the path that it was appended to is the path in its normal
/// form.
pub proof fn lemma_strip_joined(base: Seq<char>, path: Seq<char>)
    requires
        !is_absolute(path),
        base.len() == 0 || !leading_dot(path),
    ensures
        is_under(base, join(base, path)),
        stripped(base, join(base, path)) == normalized(path),
{
    lemma_parts_of_joined(base, path);
    let b = path_parts(base);
    let all = path_parts(join(base, path));
    assert(all.subrange(0, b.len() as int) =~= b);
    assert(all.subrange(b.len() as int, all.len() as int) =~= path_parts(path));
}

/// The components that are the names `names`.
pub open spec fn named(names: Seq<Seq<char>>) -> Seq<PathPart> {
    Seq::new(names.len(), |i: int| PathPart::Normal(names[i]))
}

/// The path that is written with plain names has these names as its components, so that it
/// lies in the collections that its leading names spell, and in no others.
pub proof fn lemma_path_of_names(names: Seq<Seq<char>>, collection: Seq<Seq<char>>)
    requires
        forall|i: int| 0 <= i < names.len() ==> plain_name(#[trigger] names[i]),
    ensures
        path_parts(unparse(named(names))) == named(names),
        in_collection(path_parts(unparse(named(names))), collection) <==> collection.len()
            <= names.len() && collection == names.take(collection.len() as int),
{
    let parts = named(names);
    lemma_parts_of_unparse(parts);
    if collection.len() <= names.len() && collection == names.take(collection.len() as int) {
        assert forall|i: int| 0 <= i < collection.len() implies #[trigger] parts[i]
            == PathPart::Normal(collection[i]) by {
            assert(names.take(collection.len() as int)[i] == names[i]);
        }
    }
    if in_collection(parts, collection) {
        assert forall|i: int| 0 <= i < collection.len() implies collection[i] == names.take(
            collection.len() as int,
        )[i] by {
            assert(parts[i] == PathPart::Normal(collection[i]));
        }
        assert(collection =~= names.take(collection.len() as int));
    }
}

} // verus!
