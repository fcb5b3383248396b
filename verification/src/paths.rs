//! Unix paths, as the bytes that the system knows them by.

use vstd::prelude::*;
use vstd::utf8::*;

use crate::text::pieces;

verus! {

/// The byte between the names of a path.
pub const SLASH: u8 = 47;

/// The byte whose name means the directory it stands in.
pub const DOT: u8 = 46;

/// The bytes of a text.
pub fn bytes_of(s: &str) -> (bytes: Vec<u8>)
    ensures
        bytes@ == encode_utf8(s@),
{
    s.as_bytes_vec()
}

/// A path with one more name at its end.
pub open spec fn path_join(base: Seq<u8>, name: Seq<u8>) -> Seq<u8> {
    if base.len() == 0 || base.last() == SLASH {
        base + name
    } else {
        base.push(SLASH) + name
    }
}

/// A path with one more name at its end.
pub fn join(base: Vec<u8>, name: &str) -> (path: Vec<u8>)
    ensures
        path@ == path_join(base@, encode_utf8(name@)),
{
    let mut path: Vec<u8> = base;
    if path.len() > 0 && path[path.len() - 1] != SLASH {
        path.push(SLASH);
    }
    let mut tail: Vec<u8> = bytes_of(name);
    path.append(&mut tail);
    path
}

/// Whether a name counts: empty names and `.` do not.
pub open spec fn counts(name: Seq<u8>) -> bool {
    name.len() > 0 && name != seq![DOT]
}

/// The names among some pieces that count.
pub open spec fn counted(list: Seq<Seq<u8>>) -> Seq<Seq<u8>>
    decreases list.len(),
{
    if list.len() == 0 {
        Seq::empty()
    } else if counts(list.last()) {
        counted(list.drop_last()).push(list.last())
    } else {
        counted(list.drop_last())
    }
}

/// The names along an absolute path.
pub open spec fn names_along(path: Seq<u8>) -> Seq<Seq<u8>> {
    counted(pieces(path, SLASH))
}

/// Whether a path starts at the root.
pub open spec fn absolute(path: Seq<u8>) -> bool {
    path.len() > 0 && path[0] == SLASH
}

/// The names of a list of byte strings.
pub open spec fn byte_names(list: Seq<Vec<u8>>) -> Seq<Seq<u8>> {
    list.map_values(|name: Vec<u8>| name@)
}

/// Whether every name counts and holds no slash.
pub open spec fn proper(names: Seq<Seq<u8>>) -> bool {
    forall|i: int|
        0 <= i < names.len() ==> counts(#[trigger] names[i]) && !names[i].contains(SLASH)
}

/// The names with a slash before each one.
pub open spec fn slashed(names: Seq<Seq<u8>>) -> Seq<u8>
    decreases names.len(),
{
    if names.len() == 0 {
        Seq::empty()
    } else {
        slashed(names.drop_last()).push(SLASH) + names.last()
    }
}

/// The path from the root along some names.
pub open spec fn absolute_path(names: Seq<Seq<u8>>) -> Seq<u8> {
    if names.len() == 0 {
        seq![SLASH]
    } else {
        slashed(names)
    }
}

/// The path along some names from where one stands.
pub open spec fn relative_path(names: Seq<Seq<u8>>) -> Seq<u8> {
    if names.len() == 0 {
        Seq::empty()
    } else {
        slashed(names).skip(1)
    }
}

/// An absolute path, by the names along it.
#[derive(Debug)]
pub struct AbsPath {
    pub names: Vec<Vec<u8>>,
}

impl View for AbsPath {
    type V = Seq<Seq<u8>>;

    open spec fn view(&self) -> Seq<Seq<u8>> {
        byte_names(self.names@)
    }
}

/// A piece holds no separator.
proof fn pieces_hold_no_separator(s: Seq<u8>, sep: u8)
    ensures
        pieces(s, sep).len() > 0,
        forall|i: int|
            0 <= i < pieces(s, sep).len() ==> !(#[trigger] pieces(s, sep)[i]).contains(sep),
    decreases s.len(),
{
    if s.len() > 0 {
        pieces_hold_no_separator(s.drop_last(), sep);
        let before = pieces(s.drop_last(), sep);
        let last = before.last();
        assert(before[before.len() - 1] == last);
        assert forall|i: int| 0 <= i < pieces(s, sep).len() implies !(#[trigger] pieces(
            s,
            sep,
        )[i]).contains(sep) by {
            if i < before.len() - 1 {
                assert(pieces(s, sep)[i] == before[i]);
            } else if s.last() != sep {
                let piece = last.push(s.last());
                assert(pieces(s, sep)[i] == piece);
                if piece.contains(sep) {
                    let k = choose|k: int| 0 <= k < piece.len() && piece[k] == sep;
                    if k < last.len() {
                        assert(last[k] == sep);
                    }
                }
            } else if i == before.len() - 1 {
                assert(pieces(s, sep)[i] == before[i]);
            }
        }
    }
}

/// The names that count among pieces without slashes are proper.
proof fn counted_names_are_proper(list: Seq<Seq<u8>>)
    requires
        forall|i: int| 0 <= i < list.len() ==> !(#[trigger] list[i]).contains(SLASH),
    ensures
        proper(counted(list)),
    decreases list.len(),
{
    if list.len() > 0 {
        assert forall|i: int| 0 <= i < list.drop_last().len() implies !(
            #[trigger] list.drop_last()[i]).contains(SLASH) by {
            assert(list.drop_last()[i] == list[i]);
        }
        counted_names_are_proper(list.drop_last());
        assert(!list[list.len() - 1].contains(SLASH));
    }
}

/// A name without slashes after a slash is one more piece.
proof fn one_more_piece(s: Seq<u8>, name: Seq<u8>)
    requires
        !name.contains(SLASH),
    ensures
        pieces(s.push(SLASH) + name, SLASH) == pieces(s, SLASH).push(name),
    decreases name.len(),
{
    let whole = s.push(SLASH) + name;
    if name.len() == 0 {
        assert(whole == s.push(SLASH));
        assert(whole.drop_last() == s);
        assert(name == Seq::<u8>::empty());
    } else {
        let shorter = name.drop_last();
        assert(whole.drop_last() == s.push(SLASH) + shorter);
        assert(name[name.len() - 1] != SLASH);
        assert(!shorter.contains(SLASH)) by {
            if shorter.contains(SLASH) {
                let k = choose|k: int| 0 <= k < shorter.len() && shorter[k] == SLASH;
                assert(name[k] == SLASH);
            }
        }
        one_more_piece(s, shorter);
        let before = pieces(s, SLASH).push(shorter);
        assert(before.drop_last() == pieces(s, SLASH));
        assert(shorter.push(name.last()) == name);
    }
}

/// Proper names are the names along the path they make.
proof fn slashed_names_are_found(names: Seq<Seq<u8>>)
    requires
        proper(names),
    ensures
        names_along(slashed(names)) == names,
    decreases names.len(),
{
    if names.len() == 0 {
        assert(names_along(slashed(names)) == names) by {
            let only = pieces(Seq::<u8>::empty(), SLASH);
            assert(only == seq![Seq::<u8>::empty()]);
            assert(only.drop_last() == Seq::<Seq<u8>>::empty());
            assert(counted(only.drop_last()) == Seq::<Seq<u8>>::empty());
        }
    } else {
        let init = names.drop_last();
        assert(proper(init)) by {
            assert forall|i: int| 0 <= i < init.len() implies counts(#[trigger] init[i])
                && !init[i].contains(SLASH) by {
                assert(init[i] == names[i]);
            }
        }
        slashed_names_are_found(init);
        let last = names.last();
        assert(names[names.len() - 1] == last);
        one_more_piece(slashed(init), last);
        let list = pieces(slashed(init), SLASH).push(last);
        assert(list.drop_last() == pieces(slashed(init), SLASH));
        assert(init.push(last) == names);
    }
}

/// Reading the path that proper names make gives those names back.
pub proof fn absolute_paths_are_read_back(names: Seq<Seq<u8>>)
    requires
        proper(names),
    ensures
        absolute(absolute_path(names)),
        names_along(absolute_path(names)) == names,
{
    if names.len() == 0 {
        let root = seq![SLASH];
        let empty = Seq::<u8>::empty();
        assert(root.drop_last() == empty);
        assert(pieces(empty, SLASH) == seq![empty]);
        let two = pieces(root, SLASH);
        assert(two == seq![empty, empty]);
        assert(two.drop_last() == seq![empty]);
        assert(two.drop_last().drop_last() == Seq::<Seq<u8>>::empty());
        reveal_with_fuel(counted, 3);
    } else {
        slashed_names_are_found(names);
        slashed_starts_with_slash(names);
    }
}

/// The first byte before any name is a slash.
proof fn slashed_starts_with_slash(names: Seq<Seq<u8>>)
    requires
        names.len() > 0,
    ensures
        absolute(slashed(names)),
    decreases names.len(),
{
    if names.len() > 1 {
        slashed_starts_with_slash(names.drop_last());
    }
    let init = slashed(names.drop_last());
    assert(slashed(names)[0] == init.push(SLASH)[0]);
}

/// The names of two lists, one after the other, make one path after the other.
proof fn slashed_in_parts(a: Seq<Seq<u8>>, b: Seq<Seq<u8>>)
    ensures
        slashed(a + b) == slashed(a) + slashed(b),
    decreases b.len(),
{
    if b.len() == 0 {
        assert(a + b == a);
        assert(slashed(a) + slashed(b) == slashed(a));
    } else {
        slashed_in_parts(a, b.drop_last());
        assert((a + b).drop_last() == a + b.drop_last());
        assert(slashed(a + b) == slashed(a) + slashed(b));
    }
}

/// The relative path along some names, joined to the path of the directory they
/// start from, is the path along all of them.
pub proof fn relative_paths_lead_there(base: Seq<Seq<u8>>, names: Seq<Seq<u8>>)
    requires
        proper(base),
        names.len() > 0,
    ensures
        path_join(absolute_path(base), relative_path(names)) == absolute_path(base + names),
{
    let rel = relative_path(names);
    slashed_starts_with_slash(names);
    assert(slashed(names) == seq![SLASH] + rel);
    slashed_in_parts(base, names);
    if base.len() == 0 {
        assert(base + names == names);
        assert(absolute_path(base) + rel == slashed(names));
    } else {
        let dir = slashed(base);
        let last = base.last();
        assert(counts(base[base.len() - 1]));
        assert(dir.last() == last[last.len() - 1]);
        assert(last.contains(last[last.len() - 1]));
        assert(dir.push(SLASH) + rel == dir + slashed(names));
    }
}

impl AbsPath {
    /// Reads an absolute path. Repeated slashes, slashes at the end and names
    /// `.` make no difference.
    pub fn parse(path: &Vec<u8>) -> (found: Option<AbsPath>)
        ensures
            found is Some <==> absolute(path@),
            found matches Some(p) ==> p@ == names_along(path@) && proper(p@),
    {
        if path.len() == 0 || path[0] != SLASH {
            return None;
        }
        let ghost done = Seq::<Seq<u8>>::empty();
        let mut names: Vec<Vec<u8>> = Vec::new();
        let mut piece: Vec<u8> = Vec::new();
        let mut i: usize = 0;
        assert(path@.take(0) == Seq::<u8>::empty());
        assert(done.push(piece@) == pieces(path@.take(0), SLASH));
        while i < path.len()
            invariant
                i <= path.len(),
                done.push(piece@) == pieces(path@.take(i as int), SLASH),
                byte_names(names@) == counted(done),
            decreases path.len() - i,
        {
            let ghost before = done.push(piece@);
            assert(path@.take(i + 1).drop_last() == path@.take(i as int));
            assert(before.drop_last() == done);
            let byte: u8 = path[i];
            if byte == SLASH {
                add_name(&mut names, piece);
                proof {
                    done = before;
                }
                piece = Vec::new();
            } else {
                piece.push(byte);
            }
            i = i + 1;
        }
        assert(path@.take(path.len() as int) == path@);
        let ghost all = done.push(piece@);
        assert(all.drop_last() == done);
        add_name(&mut names, piece);
        proof {
            pieces_hold_no_separator(path@, SLASH);
            counted_names_are_proper(all);
        }
        Some(AbsPath { names })
    }

    /// The path as bytes.
    pub fn to_bytes(&self) -> (path: Vec<u8>)
        ensures
            path@ == absolute_path(self@),
    {
        if self.names.len() == 0 {
            let mut root: Vec<u8> = Vec::new();
            root.push(SLASH);
            return root;
        }
        let path: Vec<u8> = slashed_bytes(&self.names, 0);
        assert(self@.skip(0) == self@);
        path
    }

    /// The directory that holds the path's last name, and nothing at the root.
    pub fn parent(&self) -> (dir: Option<AbsPath>)
        ensures
            dir is Some <==> self@.len() > 0,
            dir matches Some(d) ==> d@ == self@.drop_last() && (proper(self@) ==> proper(d@)),
    {
        let n: usize = self.names.len();
        if n == 0 {
            return None;
        }
        let mut names: Vec<Vec<u8>> = Vec::new();
        let mut i: usize = 0;
        while i < n - 1
            invariant
                i <= n - 1,
                n == self.names.len(),
                byte_names(names@) == self@.take(i as int),
            decreases n - i,
        {
            names.push(self.names[i].clone());
            assert(self@.take(i + 1) == self@.take(i as int).push(self@[i as int]));
            assert(names@.last()@ == self@[i as int]);
            i = i + 1;
        }
        assert(self@.take(n - 1) == self@.drop_last());
        assert(proper(self@) ==> proper(self@.drop_last())) by {
            assert forall|k: int| 0 <= k < n - 1 && proper(self@) implies counts(
                #[trigger] self@.drop_last()[k],
            ) && !self@.drop_last()[k].contains(SLASH) by {
                assert(self@.drop_last()[k] == self@[k]);
            }
        }
        Some(AbsPath { names })
    }

    /// The path with one more name at its end.
    pub fn child(self, name: &str) -> (path: AbsPath)
        ensures
            path@ == self@.push(encode_utf8(name@)),
    {
        let mut names: Vec<Vec<u8>> = self.names;
        names.push(bytes_of(name));
        let path = AbsPath { names };
        assert(path@ == self@.push(encode_utf8(name@)));
        path
    }

    /// Whether the names of `base` are the first names of this path.
    pub fn is_under(&self, base: &AbsPath) -> (yes: bool)
        ensures
            yes == base@.is_prefix_of(self@),
    {
        if base.names.len() > self.names.len() {
            return false;
        }
        let mut i: usize = 0;
        while i < base.names.len()
            invariant
                i <= base.names.len() <= self.names.len(),
                forall|j: int| 0 <= j < i ==> #[trigger] base@[j] == self@[j],
            decreases base.names.len() - i,
        {
            if !same_bytes(&base.names[i], &self.names[i]) {
                assert(base@[i as int] != self@[i as int]);
                return false;
            }
            i = i + 1;
        }
        assert(base@ == self@.take(base@.len() as int));
        true
    }

    /// The path from the directory that the first `skip` names lead to.
    pub(crate) fn relative_from(&self, skip: usize) -> (path: Vec<u8>)
        requires
            skip <= self@.len(),
        ensures
            path@ == relative_path(self@.skip(skip as int)),
    {
        if skip == self.names.len() {
            return Vec::new();
        }
        let all: Vec<u8> = slashed_bytes(&self.names, skip);
        proof {
            slashed_starts_with_slash(self@.skip(skip as int));
        }
        let mut path: Vec<u8> = Vec::new();
        let mut i: usize = 1;
        while i < all.len()
            invariant
                1 <= i <= all.len(),
                path@ == all@.subrange(1, i as int),
            decreases all.len() - i,
        {
            path.push(all[i]);
            assert(all@.subrange(1, i + 1) == all@.subrange(1, i as int).push(all@[i as int]));
            i = i + 1;
        }
        assert(all@.subrange(1, all.len() as int) == all@.skip(1));
        path
    }
}

/// Whether two byte strings are the same.
fn same_bytes(a: &Vec<u8>, b: &Vec<u8>) -> (same: bool)
    ensures
        same == (a@ == b@),
{
    if a.len() != b.len() {
        return false;
    }
    let mut i: usize = 0;
    while i < a.len()
        invariant
            i <= a.len() == b.len(),
            forall|j: int| 0 <= j < i ==> a@[j] == b@[j],
        decreases a.len() - i,
    {
        if a[i] != b[i] {
            return false;
        }
        i = i + 1;
    }
    assert(a@ == b@);
    true
}

/// Appends a name that counts.
fn add_name(names: &mut Vec<Vec<u8>>, name: Vec<u8>)
    ensures
        byte_names(final(names)@) == (if counts(name@) {
            byte_names(old(names)@).push(name@)
        } else {
            byte_names(old(names)@)
        }),
{
    if name.len() == 0 {
        return;
    }
    if name.len() == 1 && name[0] == DOT {
        assert(name@ == seq![DOT]);
        return;
    }
    names.push(name);
    assert(byte_names(names@) == byte_names(old(names)@).push(name@));
}

/// The names from position `from` on, with a slash before each one.
fn slashed_bytes(names: &Vec<Vec<u8>>, from: usize) -> (path: Vec<u8>)
    requires
        from <= names.len(),
    ensures
        path@ == slashed(byte_names(names@).skip(from as int)),
{
    let ghost all = byte_names(names@).skip(from as int);
    let mut path: Vec<u8> = Vec::new();
    let mut i: usize = from;
    assert(all.take(0) == Seq::<Seq<u8>>::empty());
    while i < names.len()
        invariant
            from <= i <= names.len(),
            all == byte_names(names@).skip(from as int),
            path@ == slashed(all.take(i - from)),
        decreases names.len() - i,
    {
        assert(all.take(i - from + 1).drop_last() == all.take(i - from));
        assert(all[i - from] == names@[i as int]@);
        path.push(SLASH);
        let mut name: Vec<u8> = names[i].clone();
        assert(name@ == names@[i as int]@);
        path.append(&mut name);
        i = i + 1;
    }
    assert(all.take(names.len() - from) == all);
    path
}

/// A name goes to the end of a path, after one slash, which is added where the
/// path does not end in one; nothing goes before it where the path is empty.
pub proof fn names_go_after_a_slash(base: Vec<u8>, name: &str, path: Vec<u8>)
    requires
        call_ensures(join, (base, name), path),
    ensures
        base@.len() == 0 || base@.last() == 47u8 ==> path@ == base@ + encode_utf8(name@),
        base@.len() > 0 && base@.last() != 47u8 ==> path@ == base@ + seq![47u8] + encode_utf8(
            name@,
        ),
{
    assert(base@.push(47u8) == base@ + seq![47u8]);
}

/// The names of a path are those of its strings of bytes, one by one.
proof fn names_are_those_of_the_bytes(list: Seq<Vec<u8>>)
    ensures
        byte_names(list).len() == list.len(),
        forall|i: int| 0 <= i < list.len() ==> #[trigger] byte_names(list)[i] == list[i]@,
{
}

/// A path is read where it begins with a slash. The root has no names; after a
/// path `head`, which may be empty, a slash and a name without slashes add that
/// name, unless it is empty or a single dot.
pub proof fn paths_are_read_name_by_name(
    head: Vec<u8>,
    of_head: Option<AbsPath>,
    name: Seq<u8>,
    path: Vec<u8>,
    of_path: Option<AbsPath>,
)
    requires
        path@ == head@ + seq![47u8] + name,
        !name.contains(47u8),
        call_ensures(AbsPath::parse, (&head,), of_head),
        call_ensures(AbsPath::parse, (&path,), of_path),
    ensures
        of_head is Some <==> head@.len() > 0 && head@[0] == 47u8,
        of_path is Some <==> path@[0] == 47u8,
        head@.len() == 0 || of_head is Some ==> {
            let before = if head@.len() == 0 {
                Seq::<Vec<u8>>::empty()
            } else {
                of_head->0.names@
            };
            let names = of_path->0.names@;
            let counted = !(name.len() == 0 || name == seq![46u8]);
            &&& of_path is Some
            &&& names.len() == before.len() + if counted {
                1int
            } else {
                0
            }
            &&& forall|i: int| 0 <= i < before.len() ==> (#[trigger] names[i])@ == before[i]@
            &&& counted ==> names.last()@ == name
        },
{
    assert(path@ == head@.push(SLASH) + name);
    if head@.len() > 0 {
        assert(path@[0] == head@[0]);
    }
    if head@.len() == 0 || of_head is Some {
        one_more_piece(head@, name);
        let list = pieces(head@, SLASH).push(name);
        assert(list.drop_last() == pieces(head@, SLASH));
        let names = of_path->0.names@;
        names_are_those_of_the_bytes(names);
        let before = if head@.len() == 0 {
            Seq::<Vec<u8>>::empty()
        } else {
            of_head->0.names@
        };
        names_are_those_of_the_bytes(before);
        if head@.len() == 0 {
            let only = pieces(head@, SLASH);
            assert(head@ == Seq::<u8>::empty());
            assert(only == seq![Seq::<u8>::empty()]);
            assert(only.drop_last() == Seq::<Seq<u8>>::empty());
            assert(counted(only.drop_last()) == Seq::<Seq<u8>>::empty());
            assert(counted(only) == Seq::<Seq<u8>>::empty());
        }
        assert(byte_names(before) == counted(pieces(head@, SLASH)));
        assert(of_path is Some);
        assert(byte_names(names) == counted(list));
        assert forall|i: int| 0 <= i < before.len() implies (#[trigger] names[i])@
            == before[i]@ by {
            assert(byte_names(names)[i] == byte_names(before)[i]);
        }
        if counts(name) {
            assert(byte_names(names).last() == names[names.len() - 1]@);
        }
    }
}

/// The root is a slash; a path with one more name is the path, a slash and the
/// name, where the root counts as nothing.
pub proof fn paths_are_written_name_by_name(
    path: AbsPath,
    of_path: Vec<u8>,
    longer: AbsPath,
    of_longer: Vec<u8>,
)
    requires
        longer.names@.len() == path.names@.len() + 1,
        forall|i: int|
            0 <= i < path.names@.len() ==> (#[trigger] longer.names@[i])@ == path.names@[i]@,
        call_ensures(AbsPath::to_bytes, (&path,), of_path),
        call_ensures(AbsPath::to_bytes, (&longer,), of_longer),
    ensures
        path.names@.len() == 0 ==> of_path@ == seq![47u8] && of_longer@ == seq![47u8]
            + longer.names@[0]@,
        path.names@.len() > 0 ==> of_longer@ == of_path@ + seq![47u8] + longer.names@.last()@,
        of_path@ == absolute_path(path@),
{
    let n = path.names@.len();
    names_are_those_of_the_bytes(path.names@);
    names_are_those_of_the_bytes(longer.names@);
    assert(longer@.drop_last() == path@) by {
        assert forall|i: int| 0 <= i < n implies longer@.drop_last()[i] == path@[i] by {
            assert(longer.names@[i]@ == path.names@[i]@);
        }
    }
    assert(longer@.last() == longer.names@[n as int]@);
    if n == 0 {
        assert(slashed(path@) == Seq::<u8>::empty());
        assert(of_longer@ == Seq::<u8>::empty().push(SLASH) + longer@.last());
        assert(of_longer@ == seq![47u8] + longer.names@[0]@);
    } else {
        assert(of_longer@ == of_path@.push(SLASH) + longer@.last());
        assert(of_path@.push(SLASH) == of_path@ + seq![47u8]);
    }
}

/// The directory of a path has all its names but the last; the root has none.
pub proof fn parents_lack_the_last_name(path: AbsPath, dir: Option<AbsPath>)
    requires
        call_ensures(AbsPath::parent, (&path,), dir),
    ensures
        dir is None <==> path.names@.len() == 0,
        dir matches Some(d) ==> {
            &&& d.names@.len() == path.names@.len() - 1
            &&& forall|i: int|
                0 <= i < d.names@.len() ==> (#[trigger] d.names@[i])@ == path.names@[i]@
        },
{
    names_are_those_of_the_bytes(path.names@);
    match dir {
        Some(d) => {
            names_are_those_of_the_bytes(d.names@);
            assert forall|i: int| 0 <= i < d.names@.len() implies (#[trigger] d.names@[i])@
                == path.names@[i]@ by {
                assert(d@[i] == path@[i]);
            }
        },
        None => {},
    }
}

/// A path has another one's names and one more.
pub proof fn children_have_one_more_name(path: AbsPath, name: &str, child: AbsPath)
    requires
        call_ensures(AbsPath::child, (path, name), child),
    ensures
        child.names@.len() == path.names@.len() + 1,
        forall|i: int|
            0 <= i < path.names@.len() ==> (#[trigger] child.names@[i])@ == path.names@[i]@,
        child.names@.last()@ == encode_utf8(name@),
{
    names_are_those_of_the_bytes(path.names@);
    names_are_those_of_the_bytes(child.names@);
    let n = path.names@.len();
    assert forall|i: int| 0 <= i < n implies (#[trigger] child.names@[i])@ == path.names@[i]@ by {
        assert(child@[i] == path@[i]);
    }
    assert(child@[n as int] == child.names@[n as int]@);
}

/// A path is under another one exactly where it has at least as many names and
/// begins with the other one's.
pub proof fn paths_are_under_what_they_begin_with(path: AbsPath, base: AbsPath, yes: bool)
    requires
        call_ensures(AbsPath::is_under, (&path, &base), yes),
    ensures
        yes <==> base.names@.len() <= path.names@.len() && forall|i: int|
            0 <= i < base.names@.len() ==> (#[trigger] base.names@[i])@ == path.names@[i]@,
{
    names_are_those_of_the_bytes(path.names@);
    names_are_those_of_the_bytes(base.names@);
    let n = base.names@.len() as int;
    if yes {
        assert forall|i: int| 0 <= i < n implies (#[trigger] base.names@[i])@ == path.names@[i]@ by {
            assert(base@[i] == path@.subrange(0, n)[i]);
        }
    }
    if n <= path.names@.len() && forall|i: int|
        0 <= i < n ==> (#[trigger] base.names@[i])@ == path.names@[i]@ {
        assert forall|i: int| 0 <= i < n implies base@[i] == path@[i] by {
            assert(base.names@[i]@ == path.names@[i]@);
        }
        assert(path@.subrange(0, n) == base@);
    }
}

} // verus!
