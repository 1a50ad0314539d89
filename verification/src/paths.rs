//! File paths as the bytes that a Unix system uses, with the parts that the server reads.

use crate::encoding;
use crate::text;
use vstd::prelude::*;
use vstd::utf8;

verus! {

/// A file path on Unix, where `/` separates and nothing else does: its raw bytes, and its text
/// with anything that is not UTF-8 replaced.
#[derive(Debug)]
pub struct MediaPath {
    bytes: Vec<u8>,
    text: String,
}

/// Whether a path starts at the root.
pub open spec fn is_rooted(path: Seq<u8>) -> bool {
    path.len() > 0 && path[0] == 47
}

/// Whether piece `i` between the slashes names a component: empty pieces do not, nor does a
/// `.` that is not the first piece.
pub open spec fn names_component(piece: Seq<u8>, i: int) -> bool {
    piece.len() > 0 && (piece != seq![46u8] || i == 0)
}

/// The components among the first pieces of a path.
pub open spec fn components_among(pieces: Seq<Seq<u8>>) -> Seq<Seq<u8>>
    decreases pieces.len(),
{
    if pieces.len() == 0 {
        Seq::empty()
    } else {
        let before = components_among(pieces.drop_last());
        if names_component(pieces.last(), pieces.len() - 1) {
            before.push(pieces.last())
        } else {
            before
        }
    }
}

/// The components of a path, the root apart.
pub open spec fn components(path: Seq<u8>) -> Seq<Seq<u8>> {
    components_among(text::split(path, 47u8))
}

/// The name that a list of components ends in, unless it ends in `.` or `..`.
pub open spec fn last_name(parts: Seq<Seq<u8>>) -> Option<Seq<u8>> {
    if parts.len() > 0 && parts.last() != seq![46u8] && parts.last() != seq![46u8, 46u8] {
        Some(parts.last())
    } else {
        None
    }
}

/// The name of the file that a path leads to.
pub open spec fn file_name(path: Seq<u8>) -> Option<Seq<u8>> {
    last_name(components(path))
}

/// The name of the directory that holds what a path leads to.
pub open spec fn parent_name(path: Seq<u8>) -> Option<Seq<u8>> {
    if components(path).len() > 0 {
        last_name(components(path).drop_last())
    } else {
        None
    }
}

/// What stands behind the last dot of a name, if something stands before that dot.
pub open spec fn name_extension(name: Seq<u8>) -> Option<Seq<u8>> {
    let pieces = text::split(name, 46u8);
    if pieces.len() > 1 && pieces.last().len() + 1 < name.len() {
        Some(pieces.last())
    } else {
        None
    }
}

/// The extension of the file that a path leads to.
pub open spec fn extension(path: Seq<u8>) -> Option<Seq<u8>> {
    match file_name(path) {
        Some(name) => name_extension(name),
        None => None,
    }
}

/// Whether two paths have the same components.
pub open spec fn same_path(a: Seq<u8>, b: Seq<u8>) -> bool {
    is_rooted(a) == is_rooted(b) && components(a) == components(b)
}

/// Whether the components of `path` begin with those of `dir`.
pub open spec fn lies_under(path: Seq<u8>, dir: Seq<u8>) -> bool {
    &&& components(dir).is_prefix_of(components(path))
    &&& is_rooted(dir) == is_rooted(path) || (!is_rooted(dir) && components(dir).len() == 0)
}

/// The text that bytes encode, if they are valid UTF-8.
pub open spec fn utf8_text(bytes: Option<Seq<u8>>) -> Option<Seq<char>> {
    match bytes {
        Some(b) => if utf8::valid_utf8(b) {
            Some(utf8::decode_utf8(b))
        } else {
            None
        },
        None => None,
    }
}

/// The view of an optional text.
pub open spec fn opt_text(s: Option<String>) -> Option<Seq<char>> {
    match s {
        Some(s) => Some(s@),
        None => None,
    }
}

/// What `opt_text` and `utf8_text` show is the text itself, wherever there is one.
pub proof fn law_texts_are_shown(s: Option<String>, bytes: Seq<u8>)
    ensures
        match s {
            Some(s1) => opt_text(s) == Some(s1@),
            None => opt_text(s) is None,
        },
        utf8_text(None) is None,
        utf8::valid_utf8(bytes) ==> utf8_text(Some(bytes)) == Some(utf8::decode_utf8(bytes)),
        !utf8::valid_utf8(bytes) ==> utf8_text(Some(bytes)) is None,
{
}

/// A name behind a slash is one more component, unless it is empty or a dot. A path without a
/// slash is its own component, unless it is empty.
pub proof fn law_components(dir: Seq<u8>, name: Seq<u8>)
    requires
        !name.contains(47),
    ensures
        components(dir.push(47) + name) == (if name.len() == 0 || name == seq![46u8] {
            components(dir)
        } else {
            components(dir).push(name)
        }),
        components(name) == (if name.len() == 0 {
            Seq::empty()
        } else {
            seq![name]
        }),
{
    let pieces = text::split(dir, 47u8);
    text::lemma_split_nonempty(dir, 47u8);
    text::lemma_split_append(dir, 47u8, name);
    text::lemma_split_single(name, 47u8);
    assert(pieces.push(name).drop_last() =~= pieces);
    assert(seq![name].drop_last() =~= Seq::empty());
    reveal_with_fuel(components_among, 2);
}

/// A path is rooted if it begins with a slash; what stands behind that makes no difference.
pub proof fn law_rooted(path: Seq<u8>, rest: Seq<u8>)
    ensures
        is_rooted(seq![47u8] + rest),
        path.len() > 0 ==> is_rooted(path + rest) == is_rooted(path),
        path.len() > 0 && path[0] != 47 ==> !is_rooted(path),
        !is_rooted(Seq::empty()),
{
}

/// A file in a directory goes by its name, and the name of its directory is the directory's
/// own. It lies under the directory and not the other way round.
pub proof fn law_file_in_directory(dir: Seq<u8>, name: Seq<u8>)
    requires
        dir.len() > 0,
        name.len() > 0,
        !name.contains(47),
        name != seq![46u8],
        name != seq![46u8, 46u8],
    ensures
        file_name(dir.push(47) + name) == Some(name),
        parent_name(dir.push(47) + name) == file_name(dir),
        lies_under(dir.push(47) + name, dir),
        !lies_under(dir, dir.push(47) + name),
        !same_path(dir.push(47) + name, dir),
{
    let path = dir.push(47) + name;
    law_components(dir, name);
    assert(components(path).drop_last() =~= components(dir));
    assert(components(path).len() == components(dir).len() + 1);
    assert(components(path).subrange(0, components(dir).len() as int) =~= components(dir));
}

/// What ends in `.` or `..`, or is nothing but the root, goes by no name.
pub proof fn law_no_file_name(dir: Seq<u8>)
    ensures
        file_name(dir.push(47) + seq![46u8, 46u8]) is None,
        file_name(seq![46u8, 46u8]) is None,
        file_name(seq![46u8]) is None,
        file_name(seq![47u8]) is None,
        file_name(Seq::empty()) is None,
{
    let up = seq![46u8, 46u8];
    assert(!up.contains(47));
    assert(!seq![46u8].contains(47));
    assert(up.len() != seq![46u8].len());
    law_components(dir, up);
    law_components(dir, seq![46u8]);
    law_components(Seq::empty(), Seq::empty());
    assert(Seq::<u8>::empty().push(47) + Seq::<u8>::empty() =~= seq![47u8]);
}

/// The extension is what stands behind the last dot of the file's name. A name without a dot
/// has none, and neither has one whose only dot comes first.
pub proof fn law_extension(dir: Seq<u8>, stem: Seq<u8>, ext: Seq<u8>)
    requires
        dir.len() > 0,
        !stem.contains(47),
        !ext.contains(47),
        !ext.contains(46),
    ensures
        stem.len() > 0 && stem.push(46) + ext != seq![46u8, 46u8] ==> extension(
            dir.push(47) + (stem.push(46) + ext),
        ) == Some(ext),
        ext.len() > 0 ==> extension(dir.push(47) + ext) is None,
        ext.len() > 0 ==> extension(dir.push(47) + (seq![46u8] + ext)) is None,
{
    let name = stem.push(46) + ext;
    text::lemma_split_append(stem, 46u8, ext);
    text::lemma_split_nonempty(stem, 46u8);
    text::lemma_split_single(ext, 46u8);
    assert(!name.contains(47)) by {
        if name.contains(47) {
            let i = choose|i: int| 0 <= i < name.len() && name[i] == 47;
            if i < stem.len() {
                assert(stem[i] == 47);
            } else if i > stem.len() {
                assert(ext[i - stem.len() - 1] == 47);
            }
        }
    }
    if stem.len() > 0 && name != seq![46u8, 46u8] {
        assert(name.len() >= 2);
        law_file_in_directory(dir, name);
    }
    if ext.len() > 0 {
        assert(ext[0] != 46) by {
            assert(ext.contains(ext[0]));
        }
        law_file_in_directory(dir, ext);
        let hidden = seq![46u8] + ext;
        assert(hidden =~= Seq::<u8>::empty().push(46) + ext);
        text::lemma_split_append(Seq::<u8>::empty(), 46u8, ext);
        assert(!hidden.contains(47)) by {
            if hidden.contains(47) {
                let i = choose|i: int| 0 <= i < hidden.len() && hidden[i] == 47;
                assert(ext[i - 1] == 47);
            }
        }
        assert(hidden.len() >= 2);
        assert(hidden[1] != 46);
        law_file_in_directory(dir, hidden);
    }
}

/// Equal paths have equal parts and lie in the same directories.
pub proof fn law_same_path(a: Seq<u8>, b: Seq<u8>, c: Seq<u8>)
    ensures
        same_path(a, a),
        same_path(a, b) ==> same_path(b, a),
        same_path(a, b) && same_path(b, c) ==> same_path(a, c),
        same_path(a, b) ==> file_name(a) == file_name(b) && extension(a) == extension(b)
            && parent_name(a) == parent_name(b),
        same_path(a, b) ==> lies_under(a, c) == lies_under(b, c),
        same_path(a, b) ==> lies_under(c, a) == lies_under(c, b),
        is_rooted(a) != is_rooted(b) ==> !same_path(a, b),
        components(a) != components(b) ==> !same_path(a, b),
{
}

proof fn lemma_same_start(x: Seq<Seq<u8>>, y: Seq<Seq<u8>>, rest: Seq<Seq<u8>>)
    requires
        x.len() > 0,
        y.len() > 0,
        components_among(x) == components_among(y),
    ensures
        components_among(x + rest) == components_among(y + rest),
    decreases rest.len(),
{
    if rest.len() == 0 {
        assert(x + rest =~= x);
        assert(y + rest =~= y);
    } else {
        lemma_same_start(x, y, rest.drop_last());
        assert((x + rest).drop_last() =~= x + rest.drop_last());
        assert((y + rest).drop_last() =~= y + rest.drop_last());
    }
}

/// One slash more, or a dot between slashes, makes no other path; nor does a slash at the end.
pub proof fn law_needless_parts_do_not_count(dir: Seq<u8>, rest: Seq<u8>)
    requires
        dir.len() > 0,
    ensures
        same_path(dir.push(47).push(47) + rest, dir.push(47) + rest),
        same_path(dir.push(47).push(46).push(47) + rest, dir.push(47) + rest),
        same_path(dir.push(47), dir),
{
    let pieces = text::split(dir, 47u8);
    let tail = text::split(rest, 47u8);
    let empty = Seq::<u8>::empty();
    let dot = seq![46u8];
    text::lemma_split_nonempty(dir, 47u8);
    assert(!empty.contains(47));
    assert(!dot.contains(47));
    text::lemma_split_append(dir, 47u8, empty);
    text::lemma_split_append(dir, 47u8, dot);
    assert(dir.push(47) + empty =~= dir.push(47));
    assert(dir.push(47) + dot =~= dir.push(47).push(46));
    text::lemma_split_concat(dir, 47u8, rest);
    text::lemma_split_concat(dir.push(47), 47u8, rest);
    text::lemma_split_concat(dir.push(47).push(46), 47u8, rest);
    assert(pieces.push(empty).drop_last() =~= pieces);
    assert(pieces.push(dot).drop_last() =~= pieces);
    lemma_same_start(pieces.push(empty), pieces, tail);
    lemma_same_start(pieces.push(dot), pieces, tail);
}

/// What lies under a directory lies under all that this lies under; a directory lies under
/// itself; and two that lie under each other are the same.
pub proof fn law_lies_under(a: Seq<u8>, b: Seq<u8>, c: Seq<u8>)
    ensures
        lies_under(a, a),
        lies_under(a, b) && lies_under(b, c) ==> lies_under(a, c),
        a.len() > 0 && b.len() > 0 && is_rooted(a) == is_rooted(b) && lies_under(a, b)
            && lies_under(b, a) ==> same_path(a, b),
{
    let (p, q, r) = (components(a), components(b), components(c));
    assert(p.subrange(0, p.len() as int) =~= p);
    if q.is_prefix_of(p) && r.is_prefix_of(q) {
        assert(p.subrange(0, r.len() as int) =~= q.subrange(0, r.len() as int));
    }
    if q.is_prefix_of(p) && p.is_prefix_of(q) {
        assert(q.subrange(0, p.len() as int) =~= q);
    }
}

/// Nothing that starts at the root lies under a directory that does not, unless that is the
/// empty path, under which everything lies; and nothing that does not start at the root lies
/// under one that does.
pub proof fn law_rooted_and_other_paths(path: Seq<u8>, dir: Seq<u8>)
    ensures
        is_rooted(dir) && !is_rooted(path) ==> !lies_under(path, dir),
        !is_rooted(dir) && is_rooted(path) && components(dir).len() > 0 ==> !lies_under(path, dir),
        dir.len() == 0 ==> lies_under(path, dir),
        is_rooted(dir) == is_rooted(path) && components(dir) == components(path) ==> lies_under(
            path,
            dir,
        ),
{
    if dir.len() == 0 {
        assert(dir =~= Seq::empty());
        law_components(dir, dir);
        assert(components(path).subrange(0, 0) =~= components(dir));
    }
    assert(components(path).subrange(0, components(path).len() as int) =~= components(path));
}

/// What lies under one directory does not lie under its neighbour, however alike their names
/// are.
pub proof fn law_neighbours_share_nothing(path: Seq<u8>, dir: Seq<u8>, a: Seq<u8>, b: Seq<u8>)
    requires
        dir.len() > 0,
        a.len() > 0 && !a.contains(47) && a != seq![46u8],
        b.len() > 0 && !b.contains(47) && b != seq![46u8],
        a != b,
        lies_under(path, dir.push(47) + a),
    ensures
        !lies_under(path, dir.push(47) + b),
{
    law_components(dir, a);
    law_components(dir, b);
    let n = components(dir).len() as int;
    let (p, q, r) = (
        components(path),
        components(dir.push(47) + a),
        components(dir.push(47) + b),
    );
    assert(q[n] == a && r[n] == b);
    assert(p.subrange(0, n + 1)[n] == p[n]);
}

spec fn byte_views(list: Seq<Vec<u8>>) -> Seq<Seq<u8>> {
    list.map_values(|v: Vec<u8>| v@)
}

/// Whether two byte sequences are the same.
fn same_bytes(a: &Vec<u8>, b: &Vec<u8>) -> (res: bool)
    ensures
        res == (a@ == b@),
{
    if a.len() != b.len() {
        return false;
    }
    let mut i: usize = 0;
    while i < a.len()
        invariant
            i <= a.len() == b.len(),
            forall|j: int| 0 <= j < i ==> a@[j] == b@[j],
        decreases a.len() - i,
    {
        if a[i] != b[i] {
            return false;
        }
        i = i + 1;
    }
    assert(a@ =~= b@);
    true
}

/// The pieces of a byte sequence between the occurrences of `sep`.
fn split_bytes(bytes: &Vec<u8>, sep: u8) -> (res: Vec<Vec<u8>>)
    ensures
        byte_views(res@) == text::split(bytes@, sep),
{
    let mut done: Vec<Vec<u8>> = Vec::new();
    let mut piece: Vec<u8> = Vec::new();
    let mut i: usize = 0;
    assert(bytes@.take(0) =~= Seq::empty());
    assert(byte_views(done@).push(piece@) =~= text::split(bytes@.take(0), sep));
    while i < bytes.len()
        invariant
            i <= bytes.len(),
            byte_views(done@).push(piece@) == text::split(bytes@.take(i as int), sep),
        decreases bytes.len() - i,
    {
        let b = bytes[i];
        let ghost before = bytes@.take(i as int);
        let ghost after = bytes@.take(i + 1);
        assert(after.drop_last() =~= before);
        assert(text::split(before, sep).last() == piece@);
        assert(text::split(before, sep).drop_last() =~= byte_views(done@));
        if b == sep {
            done.push(piece);
            piece = Vec::new();
            assert(byte_views(done@) =~= text::split(before, sep));
        } else {
            piece.push(b);
        }
        assert(byte_views(done@).push(piece@) =~= text::split(after, sep));
        i = i + 1;
    }
    assert(bytes@.take(i as int) =~= bytes@);
    let ghost before = done@;
    let ghost last = piece@;
    done.push(piece);
    assert(byte_views(done@) =~= byte_views(before).push(last));
    done
}

/// A copy of a byte sequence.
fn copy_bytes(bytes: &Vec<u8>) -> (res: Vec<u8>)
    ensures
        res@ == bytes@,
{
    let mut out: Vec<u8> = Vec::new();
    let mut i: usize = 0;
    while i < bytes.len()
        invariant
            i <= bytes.len(),
            out@ == bytes@.take(i as int),
        decreases bytes.len() - i,
    {
        out.push(bytes[i]);
        i = i + 1;
        assert(bytes@.take(i as int).drop_last() =~= bytes@.take(i - 1));
    }
    assert(bytes@.take(i as int) =~= bytes@);
    out
}

/// The text that bytes encode, if they are valid UTF-8.
fn bytes_to_text(bytes: Option<Vec<u8>>) -> (res: Option<String>)
    ensures
        opt_text(res) == utf8_text(match bytes { Some(b) => Some(b@), None => None }),
{
    match bytes {
        Some(b) => match String::from_utf8(b) {
            Ok(s) => Some(s),
            Err(_) => None,
        },
        None => None,
    }
}

impl View for MediaPath {
    type V = Seq<u8>;

    closed spec fn view(&self) -> Seq<u8> {
        self.bytes@
    }
}

impl Clone for MediaPath {
    fn clone(&self) -> (res: Self)
        ensures
            res@ == self@,
            res.lossy() == self.lossy(),
    {
        proof {
            use_type_invariant(self);
        }
        MediaPath { bytes: copy_bytes(&self.bytes), text: self.text.clone() }
    }
}

impl MediaPath {
    #[verifier::type_invariant]
    spec fn inv(self) -> bool {
        &&& self.text@ == encoding::utf8_lossy(self.bytes@)
        &&& utf8::valid_utf8(self.bytes@) ==> self.text@ == utf8::decode_utf8(self.bytes@)
    }

    /// The path's text, with anything that is not UTF-8 replaced.
    pub closed spec fn lossy(&self) -> Seq<char> {
        self.text@
    }

    /// The path that these bytes spell.
    pub fn from_bytes(bytes: Vec<u8>) -> (res: Self)
        ensures
            res@ == bytes@,
            res.lossy() == encoding::utf8_lossy(bytes@),
            utf8::valid_utf8(bytes@) ==> res.lossy() == utf8::decode_utf8(bytes@),
    {
        let text = encoding::text_lossy(bytes.as_slice());
        MediaPath { bytes, text }
    }

    /// The path that this text spells.
    pub fn from_text(text: &str) -> (res: Self)
        ensures
            res@ == utf8::encode_utf8(text@),
            res.lossy() == text@,
    {
        broadcast use {utf8::encode_utf8_valid_utf8, utf8::encode_utf8_decode_utf8};

        let bytes = text.as_bytes();
        let mut copy: Vec<u8> = Vec::new();
        let mut i: usize = 0;
        while i < bytes.len()
            invariant
                i <= bytes@.len(),
                copy@ == bytes@.take(i as int),
            decreases bytes@.len() - i,
        {
            copy.push(bytes[i]);
            i = i + 1;
            assert(bytes@.take(i as int).drop_last() =~= bytes@.take(i - 1));
        }
        assert(copy@ =~= bytes@);
        Self::from_bytes(copy)
    }

    /// The path's bytes.
    pub fn as_bytes(&self) -> (res: &[u8])
        ensures
            res@ == self@,
    {
        self.bytes.as_slice()
    }

    /// The path's text, with anything that is not UTF-8 replaced.
    pub fn to_string_lossy(&self) -> (res: &str)
        ensures
            res@ == self.lossy(),
            res@ == encoding::utf8_lossy(self@),
            utf8::valid_utf8(self@) ==> res@ == utf8::decode_utf8(self@),
    {
        proof {
            use_type_invariant(self);
        }
        self.text.as_str()
    }

    fn is_rooted(&self) -> (res: bool)
        ensures
            res == is_rooted(self@),
    {
        self.bytes.len() > 0 && self.bytes[0] == 47
    }

    fn components(&self) -> (res: Vec<Vec<u8>>)
        ensures
            byte_views(res@) == components(self@),
    {
        let pieces = split_bytes(&self.bytes, 47);
        let ghost all = byte_views(pieces@);
        let mut out: Vec<Vec<u8>> = Vec::new();
        let mut i: usize = 0;
        assert(all.take(0) =~= Seq::empty());
        assert(byte_views(out@) =~= components_among(all.take(0)));
        while i < pieces.len()
            invariant
                i <= pieces.len(),
                all == byte_views(pieces@),
                byte_views(out@) == components_among(all.take(i as int)),
            decreases pieces.len() - i,
        {
            let piece = &pieces[i];
            assert(all.take(i + 1).drop_last() =~= all.take(i as int));
            assert(all.take(i + 1).last() == piece@);
            let dot = piece.len() == 1 && piece[0] == 46;
            assert(dot == (piece@ == seq![46u8])) by {
                if dot {
                    assert(piece@ =~= seq![46u8]);
                }
            }
            let ghost before = out@;
            if piece.len() > 0 && (!dot || i == 0) {
                out.push(copy_bytes(piece));
                assert(byte_views(out@) =~= byte_views(before).push(piece@));
            }
            i = i + 1;
        }
        assert(all.take(i as int) =~= all);
        out
    }

    /// The bytes of the file name.
    fn name_bytes(&self) -> (res: Option<Vec<u8>>)
        ensures
            (match res { Some(b) => Some(b@), None => None }) == file_name(self@),
    {
        name_at_end(self.components())
    }

    /// The file name as text: none where the path ends in no name, or the name is not UTF-8.
    pub fn file_name(&self) -> (res: Option<String>)
        ensures
            opt_text(res) == utf8_text(file_name(self@)),
    {
        bytes_to_text(self.name_bytes())
    }

    /// The parent directory's name as text: none where there is no such name, or it is not
    /// UTF-8.
    pub fn parent_name(&self) -> (res: Option<String>)
        ensures
            opt_text(res) == utf8_text(parent_name(self@)),
    {
        let mut parts = self.components();
        let ghost all = byte_views(parts@);
        match parts.pop() {
            None => {
                None
            },
            Some(_) => {
                assert(byte_views(parts@) =~= all.drop_last());
                bytes_to_text(name_at_end(parts))
            },
        }
    }

    /// The bytes of the extension.
    fn extension_bytes(&self) -> (res: Option<Vec<u8>>)
        ensures
            (match res { Some(b) => Some(b@), None => None }) == extension(self@),
    {
        let name = match self.name_bytes() {
            None => {
                return None;
            },
            Some(name) => name,
        };
        let mut pieces = split_bytes(&name, 46);
        let ghost all = byte_views(pieces@);
        proof {
            text::lemma_split_nonempty(name@, 46u8);
        }
        let n: usize = pieces.len();
        match pieces.pop() {
            None => None,
            Some(last) => {
                assert(last@ == all.last());
                if n > 1 && last.len() < name.len() && name.len() - last.len() > 1 {
                    Some(last)
                } else {
                    None
                }
            },
        }
    }

    /// Whether the file name has an extension.
    pub fn has_extension(&self) -> (res: bool)
        ensures
            res == extension(self@) is Some,
    {
        self.extension_bytes().is_some()
    }

    /// The extension as text: none where there is no extension, or it is not UTF-8.
    pub fn extension(&self) -> (res: Option<String>)
        ensures
            opt_text(res) == utf8_text(extension(self@)),
    {
        bytes_to_text(self.extension_bytes())
    }

    /// Whether two paths have the same components.
    pub fn same_path(&self, other: &MediaPath) -> (res: bool)
        ensures
            res == same_path(self@, other@),
    {
        if self.is_rooted() != other.is_rooted() {
            return false;
        }
        let a = self.components();
        let b = other.components();
        let ghost va = byte_views(a@);
        let ghost vb = byte_views(b@);
        if a.len() != b.len() {
            assert(va.len() != vb.len());
            return false;
        }
        let res = begins_with(&a, &b);
        assert(res == (va == vb)) by {
            if res {
                assert(va =~= vb);
            }
        }
        res
    }

    /// Whether the components of the path begin with those of `dir`.
    pub fn starts_with(&self, dir: &MediaPath) -> (res: bool)
        ensures
            res == lies_under(self@, dir@),
    {
        let a = self.components();
        let b = dir.components();
        let anywhere = !dir.is_rooted() && b.len() == 0;
        assert(byte_views(b@).len() == b@.len());
        (self.is_rooted() == dir.is_rooted() || anywhere) && begins_with(&a, &b)
    }
}

/// The name that a list of components ends in, unless it ends in `.` or `..`.
fn name_at_end(parts: Vec<Vec<u8>>) -> (res: Option<Vec<u8>>)
    ensures
        (match res { Some(b) => Some(b@), None => None }) == last_name(byte_views(parts@)),
{
    let mut parts = parts;
    let ghost all = byte_views(parts@);
    match parts.pop() {
        None => None,
        Some(last) => {
            assert(last@ == all.last());
            let dot = last.len() == 1 && last[0] == 46;
            let dots = last.len() == 2 && last[0] == 46 && last[1] == 46;
            assert(dot == (last@ == seq![46u8])) by {
                if dot {
                    assert(last@ =~= seq![46u8]);
                }
            }
            assert(dots == (last@ == seq![46u8, 46u8])) by {
                if dots {
                    assert(last@ =~= seq![46u8, 46u8]);
                }
            }
            if dot || dots {
                None
            } else {
                Some(last)
            }
        },
    }
}

/// Whether one list of components begins with another.
fn begins_with(list: &Vec<Vec<u8>>, start: &Vec<Vec<u8>>) -> (res: bool)
    ensures
        res == byte_views(start@).is_prefix_of(byte_views(list@)),
{
    let ghost vl = byte_views(list@);
    let ghost vs = byte_views(start@);
    if start.len() > list.len() {
        return false;
    }
    let mut i: usize = 0;
    while i < start.len()
        invariant
            i <= start.len() <= list.len(),
            vl == byte_views(list@),
            vs == byte_views(start@),
            forall|j: int| 0 <= j < i ==> #[trigger] vs[j] == vl[j],
        decreases start.len() - i,
    {
        if !same_bytes(&start[i], &list[i]) {
            assert(vs[i as int] != vl.subrange(0, vs.len() as int)[i as int]);
            return false;
        }
        assert(vs[i as int] == vl[i as int]);
        i = i + 1;
    }
    assert(vs =~= vl.subrange(0, vs.len() as int));
    true
}

} // verus!
