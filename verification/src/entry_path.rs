//! Paths of archive entries, and the rule by which an entry is taken for a
//! wanted file.
//!
//! Release archives wrap their files in one top directory whose name changes
//! from release to release. An entry is therefore compared with a wanted
//! file by what follows its first path component.
//!
//! Paths are read as archives record them, and so in the same way on
//! every host: `/` separates components, and `.` and `..` name the current
//! directory and the one above. Any other byte is part of a name, also `\`
//! and `:`, which some hosts read as a separator and as the mark of a drive.

use vstd::prelude::*;
use crate::text::{lemma_split_at_separator, lemma_split_nonempty, lemma_split_plain, split};

verus! {

/// The byte that separates the components of a path.
pub const SLASH: u8 = 0x2f;

/// The byte of which the name of the current directory consists.
pub const DOT: u8 = 0x2e;

/// Whether a stretch between separators counts as a component inside a
/// path: an empty stretch and the current directory do not.
pub open spec fn is_kept(segment: Seq<u8>) -> bool {
    segment.len() > 0 && segment != seq![DOT]
}

/// The stretches that count, in order.
pub open spec fn kept(segments: Seq<Seq<u8>>) -> Seq<Seq<u8>>
    decreases segments.len(),
{
    if segments.len() == 0 {
        Seq::empty()
    } else if is_kept(segments.last()) {
        kept(segments.drop_last()).push(segments.last())
    } else {
        kept(segments.drop_last())
    }
}

/// What stands before the inner components of a path: the root where the
/// path begins with a separator, the current directory where it begins
/// with its name, else nothing.
pub open spec fn lead(path: Seq<u8>) -> Seq<Seq<u8>> {
    if path.len() > 0 && path[0] == SLASH {
        seq![seq![SLASH]]
    } else if split(path, SLASH)[0] == seq![DOT] {
        seq![seq![DOT]]
    } else {
        Seq::empty()
    }
}

/// The components of a path. Repeated and trailing separators count for
/// nothing, and the current directory counts only at the very start. The
/// root is the component that consists of one separator.
pub open spec fn components(path: Seq<u8>) -> Seq<Seq<u8>> {
    lead(path) + kept(split(path, SLASH))
}

/// The components of a path below its first one.
pub open spec fn below_top(path: Seq<u8>) -> Seq<Seq<u8>> {
    let all = components(path);
    if all.len() == 0 {
        all
    } else {
        all.drop_first()
    }
}

/// Whether the entry at path `entry` is taken for the wanted `file`: the
/// entry's path without its first component is the file's path.
pub open spec fn names_file(entry: Seq<u8>, file: Seq<u8>) -> bool {
    below_top(entry) == components(file)
}

/// The name of the directory above.
pub open spec fn parent() -> Seq<u8> {
    seq![DOT, DOT]
}

/// How many directories deep a walk along `components` ends below the
/// directory in which it starts; `None` where the walk leaves that
/// directory on its way. A name leads one directory down, the directory
/// above leads one up, and the root and the current directory lead nowhere.
pub open spec fn depth(components: Seq<Seq<u8>>) -> Option<nat>
    decreases components.len(),
{
    if components.len() == 0 {
        Some(0)
    } else {
        let last = components.last();
        match depth(components.drop_last()) {
            None => None,
            Some(before) => if last == parent() {
                if before == 0 {
                    None
                } else {
                    Some((before - 1) as nat)
                }
            } else if last == seq![DOT] || last == seq![SLASH] {
                Some(before)
            } else {
                Some(before + 1)
            },
        }
    }
}

/// Whether what is unpacked at `path` stays inside the directory into
/// which it is unpacked: the path holds no zero byte, does not start at
/// the root, and at no point leads above the directory in which it starts.
pub open spec fn stays_inside(path: Seq<u8>) -> bool {
    &&& forall|i: int| 0 <= i < path.len() ==> path[i] != 0
    &&& !(path.len() > 0 && path[0] == SLASH)
    &&& depth(components(path)) is Some
}

/// The stretches of `path` that the bounds in `bounds` mark.
pub open spec fn stretches(path: Seq<u8>, bounds: Seq<(usize, usize)>) -> Seq<Seq<u8>> {
    Seq::new(bounds.len(), |k: int| path.subrange(bounds[k].0 as int, bounds[k].1 as int))
}

/// Whether every pair in `bounds` marks a stretch of a path of length `len`.
pub open spec fn within(bounds: Seq<(usize, usize)>, len: nat) -> bool {
    forall|k: int| 0 <= k < bounds.len() ==> (#[trigger] bounds[k]).0 <= bounds[k].1 <= len
}

/// The bounds of the stretches of `path` between separators.
pub(crate) fn segment_bounds(path: &[u8]) -> (r: Vec<(usize, usize)>)
    ensures
        within(r@, path@.len()),
        stretches(path@, r@) == split(path@, SLASH),
{
    let n: usize = path.len();
    let mut out: Vec<(usize, usize)> = Vec::new();
    let mut start: usize = 0;
    let mut i: usize = 0;
    assert(stretches(path@, out@).push(path@.subrange(0, 0)) =~~= split(path@.take(0), SLASH));
    while i < n
        invariant
            start <= i <= n,
            n == path@.len(),
            within(out@, path@.len()),
            stretches(path@, out@).push(path@.subrange(start as int, i as int)) == split(
                path@.take(i as int),
                SLASH,
            ),
        decreases n - i,
    {
        proof {
            assert(path@.take(i + 1).drop_last() =~= path@.take(i as int));
            assert(path@.take(i + 1).last() == path@[i as int]);
        }
        let ghost before = stretches(path@, out@);
        if path[i] == SLASH {
            out.push((start, i));
            start = i + 1;
            assert(stretches(path@, out@).push(path@.subrange(start as int, i + 1))
                =~~= before.push(path@.subrange(out@.last().0 as int, i as int)).push(
                Seq::empty(),
            ));
        } else {
            assert(stretches(path@, out@).push(path@.subrange(start as int, i + 1))
                =~~= before.push(path@.subrange(start as int, i as int)).update(
                before.len() as int,
                path@.subrange(start as int, i as int).push(path@[i as int]),
            ));
        }
        i += 1;
    }
    let ghost before = stretches(path@, out@);
    out.push((start, n));
    assert(path@.take(n as int) =~= path@);
    assert(stretches(path@, out@) =~= before.push(path@.subrange(start as int, n as int)));
    out
}

/// The bounds of the components of `path`.
pub(crate) fn component_bounds(path: &[u8]) -> (r: Vec<(usize, usize)>)
    ensures
        within(r@, path@.len()),
        stretches(path@, r@) == components(path@),
{
    let n: usize = path.len();
    let segments = segment_bounds(path);
    let ghost all = split(path@, SLASH);
    proof {
        lemma_split_nonempty(path@, SLASH);
        assert(all[0] == path@.subrange(segments@[0].0 as int, segments@[0].1 as int));
    }
    let mut out: Vec<(usize, usize)> = Vec::new();
    let first = segments[0];
    if n > 0 && path[0] == SLASH {
        out.push((0, 1));
        assert(path@.subrange(0, 1) =~= seq![SLASH]);
    } else if first.1 - first.0 == 1 && path[first.0] == DOT {
        out.push(first);
        assert(path@.subrange(first.0 as int, first.1 as int) =~= seq![DOT]);
    } else {
        assert(all[0] != seq![DOT]) by {
            if all[0] == seq![DOT] {
                assert(all[0].len() == 1);
                assert(all[0][0] == DOT);
            }
        }
    }
    assert(stretches(path@, out@) =~= lead(path@));
    assert(all.take(0) =~= Seq::<Seq<u8>>::empty());
    let mut j: usize = 0;
    while j < segments.len()
        invariant
            j <= segments.len(),
            n == path@.len(),
            within(segments@, path@.len()),
            within(out@, path@.len()),
            stretches(path@, segments@) == all,
            stretches(path@, out@) == lead(path@) + kept(all.take(j as int)),
        decreases segments.len() - j,
    {
        let (s, e) = segments[j];
        let ghost segment = path@.subrange(s as int, e as int);
        proof {
            assert(all[j as int] == segment);
            assert(all.take(j + 1).drop_last() =~= all.take(j as int));
            assert(all.take(j + 1).last() == segment);
            if segment == seq![DOT] {
                assert(segment.len() == 1);
                assert(segment[0] == DOT);
            }
            if e - s == 1 && path@[s as int] == DOT {
                assert(segment =~= seq![DOT]);
            }
        }
        let ghost before = stretches(path@, out@);
        if e > s && !(e - s == 1 && path[s] == DOT) {
            out.push((s, e));
            assert(stretches(path@, out@) =~= before.push(segment));
            assert(before.push(segment) =~= lead(path@) + kept(all.take(j as int)).push(
                segment,
            ));
        }
        j += 1;
    }
    assert(all.take(segments.len() as int) =~= all);
    out
}

/// Whether what is unpacked at `path` stays inside the directory into
/// which it is unpacked.
pub fn path_stays_inside(path: &[u8]) -> (r: bool)
    ensures
        r == stays_inside(path@),
{
    let n: usize = path.len();
    let mut i: usize = 0;
    while i < n
        invariant
            i <= n,
            n == path@.len(),
            forall|j: int| 0 <= j < i ==> path@[j] != 0,
        decreases n - i,
    {
        if path[i] == 0 {
            return false;
        }
        i += 1;
    }
    if n > 0 && path[0] == SLASH {
        return false;
    }
    let bounds = component_bounds(path);
    let ghost all = components(path@);
    let mut below: usize = 0;
    let mut k: usize = 0;
    assert(all.take(0) =~= Seq::<Seq<u8>>::empty());
    while k < bounds.len()
        invariant
            k <= bounds.len(),
            below <= k,
            n == path@.len(),
            within(bounds@, path@.len()),
            stretches(path@, bounds@) == all,
            all == components(path@),
            depth(all.take(k as int)) == Some(below as nat),
        decreases bounds.len() - k,
    {
        let (s, e) = bounds[k];
        let ghost component = path@.subrange(s as int, e as int);
        proof {
            assert(all[k as int] == component);
            assert(all.take(k + 1).drop_last() =~= all.take(k as int));
            assert(all.take(k + 1).last() == component);
            if component == parent() {
                assert(component.len() == 2);
                assert(component[0] == DOT && component[1] == DOT);
            }
            if component == seq![DOT] || component == seq![SLASH] {
                assert(component.len() == 1);
                assert(component[0] == DOT || component[0] == SLASH);
            }
        }
        if e - s == 2 && path[s] == DOT && path[s + 1] == DOT {
            assert(component =~= parent());
            if below == 0 {
                proof {
                    lemma_depth_lost(all, k + 1);
                }
                return false;
            }
            below -= 1;
        } else if e - s == 1 && (path[s] == DOT || path[s] == SLASH) {
            assert(component =~= seq![path@[s as int]]);
        } else {
            below += 1;
        }
        k += 1;
    }
    assert(all.take(bounds.len() as int) =~= all);
    true
}

/// A walk that has left its directory has left it for good.
pub proof fn lemma_depth_lost(components: Seq<Seq<u8>>, k: int)
    requires
        0 <= k <= components.len(),
        depth(components.take(k)) is None,
    ensures
        depth(components) is None,
    decreases components.len() - k,
{
    if k < components.len() {
        assert(components.take(k + 1).drop_last() =~= components.take(k));
        lemma_depth_lost(components, k + 1);
    } else {
        assert(components.take(k) =~= components);
    }
}

/// Whether two stretches hold the same bytes.
pub(crate) fn same_stretch(a: &[u8], a_bounds: (usize, usize), b: &[u8], b_bounds: (usize, usize)) -> (r:
    bool)
    requires
        a_bounds.0 <= a_bounds.1 <= a@.len(),
        b_bounds.0 <= b_bounds.1 <= b@.len(),
    ensures
        r == (a@.subrange(a_bounds.0 as int, a_bounds.1 as int) == b@.subrange(
            b_bounds.0 as int,
            b_bounds.1 as int,
        )),
{
    let ghost x = a@.subrange(a_bounds.0 as int, a_bounds.1 as int);
    let ghost y = b@.subrange(b_bounds.0 as int, b_bounds.1 as int);
    let len: usize = a_bounds.1 - a_bounds.0;
    if b_bounds.1 - b_bounds.0 != len {
        assert(x.len() != y.len());
        return false;
    }
    let mut k: usize = 0;
    while k < len
        invariant
            k <= len,
            len == a_bounds.1 - a_bounds.0,
            len == b_bounds.1 - b_bounds.0,
            a_bounds.1 <= a@.len(),
            b_bounds.1 <= b@.len(),
            x == a@.subrange(a_bounds.0 as int, a_bounds.1 as int),
            y == b@.subrange(b_bounds.0 as int, b_bounds.1 as int),
            forall|m: int| 0 <= m < k ==> x[m] == y[m],
        decreases len - k,
    {
        if a[a_bounds.0 + k] != b[b_bounds.0 + k] {
            assert(x[k as int] != y[k as int]);
            return false;
        }
        k += 1;
    }
    assert(x =~= y);
    true
}

/// Whether the entry at path `entry` is taken for the file whose path is
/// `file` and whose components `file_bounds` marks.
pub(crate) fn entry_names_file(entry: &[u8], file: &[u8], file_bounds: &Vec<(usize, usize)>) -> (r: bool)
    requires
        within(file_bounds@, file@.len()),
        stretches(file@, file_bounds@) == components(file@),
    ensures
        r == names_file(entry@, file@),
{
    let bounds = component_bounds(entry);
    let ghost below = below_top(entry@);
    let ghost wanted = components(file@);
    let skip: usize = if bounds.len() == 0 {
        0
    } else {
        1
    };
    if bounds.len() - skip != file_bounds.len() {
        assert(below.len() != wanted.len());
        return false;
    }
    let mut k: usize = 0;
    while k < file_bounds.len()
        invariant
            k <= file_bounds.len(),
            skip <= 1,
            skip <= bounds.len(),
            bounds.len() - skip == file_bounds.len(),
            within(bounds@, entry@.len()),
            within(file_bounds@, file@.len()),
            stretches(entry@, bounds@) == components(entry@),
            stretches(file@, file_bounds@) == wanted,
            wanted == components(file@),
            below == below_top(entry@),
            below.len() == wanted.len(),
            forall|m: int| 0 <= m < k ==> below[m] == wanted[m],
        decreases file_bounds.len() - k,
    {
        proof {
            assert(below[k as int] == stretches(entry@, bounds@)[k + skip]);
            assert(wanted[k as int] == stretches(file@, file_bounds@)[k as int]);
        }
        if !same_stretch(entry, bounds[k + skip], file, file_bounds[k]) {
            assert(below[k as int] != wanted[k as int]);
            return false;
        }
        k += 1;
    }
    assert(below =~= wanted);
    true
}

/// The path of what lies at `path` below the directory `top`.
pub open spec fn nest(top: Seq<u8>, path: Seq<u8>) -> Seq<u8> {
    top.push(SLASH) + path
}

/// Whether `name` can be the name of a directory: it is not empty and
/// holds no separator.
pub open spec fn is_name(name: Seq<u8>) -> bool {
    name.len() > 0 && forall|i: int| 0 <= i < name.len() ==> name[i] != SLASH
}

/// The stretches that count in two lists of stretches, one behind the
/// other, are those that count in each.
pub proof fn lemma_kept_concat(first: Seq<Seq<u8>>, second: Seq<Seq<u8>>)
    ensures
        kept(first + second) == kept(first) + kept(second),
    decreases second.len(),
{
    if second.len() == 0 {
        assert(first + second =~= first);
        assert(kept(first) + kept(second) =~= kept(first));
    } else {
        lemma_kept_concat(first, second.drop_last());
        assert((first + second).drop_last() =~= first + second.drop_last());
        assert((first + second).last() == second.last());
        assert(kept(first + second) =~= kept(first) + kept(second));
    }
}

/// A directory adds its name as one component in front of the components
/// of what lies in it, for every path that starts with neither the root
/// nor the current directory.
pub proof fn lemma_components_nest(top: Seq<u8>, path: Seq<u8>)
    requires
        is_name(top),
        lead(path).len() == 0,
    ensures
        components(nest(top, path)) == seq![top] + components(path),
        lead(nest(top, path)).len() == 0 <==> top != seq![DOT],
{
    let whole = nest(top, path);
    lemma_split_at_separator(top, path, SLASH);
    lemma_split_plain(top, SLASH);
    lemma_split_nonempty(path, SLASH);
    lemma_kept_concat(seq![top], split(path, SLASH));
    assert(whole[0] == top[0]);
    assert(split(whole, SLASH)[0] == top);
    assert(seq![top].drop_last() =~= Seq::<Seq<u8>>::empty());
    assert(seq![top].last() == top);
    assert(kept(Seq::<Seq<u8>>::empty()) =~= Seq::<Seq<u8>>::empty());
    assert(Seq::<Seq<u8>>::empty().push(top) =~= seq![top]);
    assert(kept(seq![top]) =~= if top == seq![DOT] {
        Seq::<Seq<u8>>::empty()
    } else {
        seq![top]
    });
    assert(components(path) =~= kept(split(path, SLASH)));
    assert(components(whole) =~= seq![top] + components(path));
}

/// An entry is taken for a file exactly if it lies one directory deep:
/// the entry at `file` below one directory is taken for `file`, whatever
/// the directory is called, while neither the entry at `file` itself nor
/// the entry at `file` below two directories is. This holds for every file
/// whose path has a component and starts with neither the root nor the
/// current directory.
pub proof fn lemma_exactly_one_component_is_dropped(
    outer: Seq<u8>,
    inner: Seq<u8>,
    file: Seq<u8>,
)
    requires
        is_name(outer),
        is_name(inner),
        inner != seq![DOT],
        lead(file).len() == 0,
        components(file).len() > 0,
    ensures
        names_file(nest(inner, file), file),
        names_file(nest(outer, file), file),
        !names_file(file, file),
        !names_file(nest(outer, nest(inner, file)), file),
{
    lemma_components_nest(inner, file);
    lemma_components_nest(outer, file);
    lemma_components_nest(outer, nest(inner, file));
    assert((seq![inner] + components(file)).drop_first() =~= components(file));
    assert((seq![outer] + components(file)).drop_first() =~= components(file));
    assert((seq![outer] + (seq![inner] + components(file))).drop_first() =~= seq![inner]
        + components(file));
}

} // verus!
