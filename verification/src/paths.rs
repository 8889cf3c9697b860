//! Paths of files, compared part by part.

use vstd::prelude::*;

use crate::digest;
use crate::text;

verus! {

/// A part of a path: a directory, a file name, or the root.
#[derive(Debug)]
pub struct PathPart {
    /// The name in the encoding of the file system.
    pub name: Vec<u8>,
    /// The name as text, as far as it is text.
    pub text: String,
}

/// A path. Two paths are the same where they have the same names part by part, so `dist` and
/// `dist/.` are.
#[derive(Debug)]
pub struct FilePath {
    /// The path as it is shown.
    pub display: String,
    pub parts: Vec<PathPart>,
}

/// A part of a path as the contracts see it.
#[verifier::ext_equal]
pub struct PartView {
    pub name: Seq<u8>,
    pub text: Seq<char>,
}

/// A path as the contracts see it.
#[verifier::ext_equal]
pub struct PathView {
    pub display: Seq<char>,
    pub parts: Seq<PartView>,
}

impl View for PathPart {
    type V = PartView;

    open spec fn view(&self) -> PartView {
        PartView { name: self.name@, text: self.text@ }
    }
}

impl View for FilePath {
    type V = PathView;

    open spec fn view(&self) -> PathView {
        PathView { display: self.display@, parts: part_views(self.parts@) }
    }
}

impl PathView {
    /// The names of the parts, which tell the path from others.
    pub open spec fn names(self) -> Seq<Seq<u8>> {
        names(self.parts)
    }
}

/// The parts of a list as the contracts see them.
pub open spec fn part_views(parts: Seq<PathPart>) -> Seq<PartView> {
    parts.map_values(|part: PathPart| part@)
}

/// The names of parts.
pub open spec fn names(parts: Seq<PartView>) -> Seq<Seq<u8>> {
    parts.map_values(|part: PartView| part.name)
}

/// The names of parts as texts.
pub open spec fn part_texts(parts: Seq<PartView>) -> Seq<Seq<char>> {
    parts.map_values(|part: PartView| part.text)
}

/// The paths of a list as the contracts see them.
pub open spec fn path_views(paths: Seq<FilePath>) -> Seq<PathView> {
    paths.map_values(|path: FilePath| path@)
}

/// A text that stands for the names of a path: each name in hexadecimal, with a slash behind it.
pub open spec fn path_key(names: Seq<Seq<u8>>) -> Seq<char>
    decreases names.len(),
{
    if names.len() == 0 {
        Seq::empty()
    } else {
        path_key(names.drop_last()) + digest::hex(names.last()) + seq!['/']
    }
}

proof fn lemma_hex_holds_no_slash(bytes: Seq<u8>, i: int)
    requires
        0 <= i < digest::hex(bytes).len(),
    ensures
        digest::hex(bytes)[i] != '/',
{
    let byte = bytes[i / 2];
    assert(digest::hex_char(byte / 16) as u32 == if byte / 16 < 10 {
        48 + byte / 16
    } else {
        87 + byte / 16
    });
    assert(digest::hex_char(byte % 16) as u32 == if byte % 16 < 10 {
        48 + byte % 16
    } else {
        87 + byte % 16
    });
}

proof fn lemma_key_ends_in_slash(names: Seq<Seq<u8>>)
    ensures
        path_key(names).len() == 0 || path_key(names).last() == '/',
        path_key(names).len() == 0 <==> names.len() == 0,
{
}

/// Paths whose names have the same key have the same names.
pub proof fn law_keys_tell_paths_apart(left: Seq<Seq<u8>>, right: Seq<Seq<u8>>)
    requires
        path_key(left) == path_key(right),
    ensures
        left == right,
    decreases left.len(),
{
    lemma_key_ends_in_slash(left);
    lemma_key_ends_in_slash(right);
    if left.len() == 0 {
        assert(left =~= right);
    } else {
        let key = path_key(left);
        let l_rest = path_key(left.drop_last());
        let r_rest = path_key(right.drop_last());
        let l_hex = digest::hex(left.last());
        let r_hex = digest::hex(right.last());
        lemma_key_ends_in_slash(left.drop_last());
        lemma_key_ends_in_slash(right.drop_last());
        let l_len = l_rest.len() as int;
        let r_len = r_rest.len() as int;
        if l_len < r_len {
            assert(key[r_len - 1] == r_rest[r_len - 1]);
            assert(key[r_len - 1] == l_hex[r_len - 1 - l_len]);
            lemma_hex_holds_no_slash(left.last(), r_len - 1 - l_len);
        }
        if r_len < l_len {
            assert(key[l_len - 1] == l_rest[l_len - 1]);
            assert(key[l_len - 1] == r_hex[l_len - 1 - r_len]);
            lemma_hex_holds_no_slash(right.last(), l_len - 1 - r_len);
        }
        assert(l_rest =~= key.take(l_len));
        assert(r_rest =~= key.take(l_len));
        assert(l_hex =~= key.subrange(l_len, key.len() - 1));
        assert(r_hex =~= key.subrange(l_len, key.len() - 1));
        digest::law_hex_tells_bytes_apart(left.last(), right.last());
        law_keys_tell_paths_apart(left.drop_last(), right.drop_last());
        assert(left =~= left.drop_last().push(left.last()));
        assert(right =~= right.drop_last().push(right.last()));
    }
}

pub(crate) fn same_bytes(left: &[u8], right: &[u8]) -> (same: bool)
    ensures
        same == (left@ == right@),
{
    if left.len() != right.len() {
        return false;
    }
    let mut i: usize = 0;
    while i < left.len()
        invariant
            i <= left.len(),
            left.len() == right.len(),
            forall|k: int| 0 <= k < i ==> left@[k] == right@[k],
        decreases left.len() - i,
    {
        if left[i] != right[i] {
            return false;
        }
        i += 1;
    }
    assert(left@ =~= right@);
    true
}

/// Whether the names of the path start with those of the directory.
pub(crate) fn lies_below(parts: &[PathPart], directory: &[PathPart]) -> (below: bool)
    ensures
        below == names(part_views(directory@)).is_prefix_of(names(part_views(parts@))),
{
    let ghost whole = names(part_views(parts@));
    let ghost base = names(part_views(directory@));
    if directory.len() > parts.len() {
        return false;
    }
    let mut i: usize = 0;
    while i < directory.len()
        invariant
            i <= directory.len() <= parts.len(),
            whole == names(part_views(parts@)),
            base == names(part_views(directory@)),
            forall|k: int| 0 <= k < i ==> base[k] == #[trigger] whole[k],
        decreases directory.len() - i,
    {
        assert(whole[i as int] == parts@[i as int].name@);
        assert(base[i as int] == directory@[i as int].name@);
        if !same_bytes(directory[i].name.as_slice(), parts[i].name.as_slice()) {
            proof {
                if base.is_prefix_of(whole) {
                    assert(whole.take(base.len() as int)[i as int] == base[i as int]);
                }
            }
            return false;
        }
        i += 1;
    }
    assert(base =~= whole.take(base.len() as int));
    true
}

impl Clone for PathPart {
    fn clone(&self) -> (copy: Self)
        ensures
            copy@ == self@,
    {
        let mut name: Vec<u8> = Vec::new();
        let mut i: usize = 0;
        while i < self.name.len()
            invariant
                i <= self.name.len(),
                name@ =~= self.name@.take(i as int),
            decreases self.name.len() - i,
        {
            name.push(self.name[i]);
            i += 1;
        }
        assert(name@ =~= self.name@);
        PathPart { name, text: self.text.clone() }
    }
}

impl Clone for FilePath {
    fn clone(&self) -> (copy: Self)
        ensures
            copy@ == self@,
    {
        let mut parts: Vec<PathPart> = Vec::new();
        let mut i: usize = 0;
        while i < self.parts.len()
            invariant
                i <= self.parts.len(),
                part_views(parts@) =~= part_views(self.parts@).take(i as int),
            decreases self.parts.len() - i,
        {
            let ghost earlier = parts@;
            let part = self.parts[i].clone();
            parts.push(part);
            assert(part_views(parts@) =~= part_views(earlier).push(self.parts@[i as int]@));
            i += 1;
        }
        assert(part_views(parts@) =~= part_views(self.parts@));
        FilePath { display: self.display.clone(), parts }
    }
}

impl FilePath {
    /// Whether both are the same path.
    pub fn is_same(&self, other: &FilePath) -> (same: bool)
        ensures
            same == (self@.names() == other@.names()),
    {
        if self.parts.len() != other.parts.len() {
            assert(self@.names().len() != other@.names().len());
            return false;
        }
        let same = lies_below(self.parts.as_slice(), other.parts.as_slice());
        proof {
            if same {
                assert(self@.names().take(other@.names().len() as int) =~= self@.names());
            }
            if self@.names() == other@.names() {
                assert(other@.names() =~= self@.names().take(other@.names().len() as int));
            }
        }
        same
    }

    /// A text that stands for the names of the path.
    pub fn key(&self) -> (key: String)
        ensures
            key@ == path_key(self@.names()),
    {
        let mut key = String::new();
        let ghost all = self@.names();
        let mut i: usize = 0;
        assert(all.take(0) =~= Seq::<Seq<u8>>::empty());
        while i < self.parts.len()
            invariant
                i <= self.parts.len(),
                all == self@.names(),
                key@ == path_key(all.take(i as int)),
            decreases self.parts.len() - i,
        {
            let ghost before = key@;
            proof {
                assert(all.take(i + 1).drop_last() =~= all.take(i as int));
                assert(all.take(i + 1).last() == self.parts@[i as int].name@);
            }
            let name = digest::hex_text(self.parts[i].name.as_slice());
            key.append(name.as_str());
            key.push('/');
            assert(key@ =~= before + name@ + seq!['/']);
            i += 1;
        }
        assert(all.take(i as int) =~= all);
        key
    }
}

/// The texts of parts from this one on, with `separator` between neighbours.
pub(crate) fn join_from(parts: &[PathPart], start: usize, separator: &str) -> (joined: String)
    requires
        start <= parts@.len(),
    ensures
        joined@ == text::joined(
            part_texts(part_views(parts@).skip(start as int)),
            separator@,
        ),
{
    let ghost expected = part_texts(part_views(parts@).skip(start as int));
    let mut rest: Vec<String> = Vec::new();
    let mut i: usize = start;
    while i < parts.len()
        invariant
            start <= i <= parts.len(),
            expected == part_texts(part_views(parts@).skip(start as int)),
            text::texts(rest@) =~= expected.take(i - start),
        decreases parts.len() - i,
    {
        let ghost earlier = rest@;
        rest.push(parts[i].text.clone());
        proof {
            assert(expected[i - start] == parts@[i as int].text@);
            assert(text::texts(rest@) =~= text::texts(earlier).push(expected[i - start]));
        }
        i += 1;
    }
    assert(expected.take(i - start) =~= expected);
    text::join(rest.as_slice(), separator)
}

} // verus!
