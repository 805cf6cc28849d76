//! Operating-system strings (arguments, environment values, paths) as the
//! library holds them: the platform-encoded bytes of an `OsStr`, which on
//! Unix are the exact bytes the system gave. They read as text only when
//! they are valid UTF-8, as `OsStr::to_str` does.
//!
//! Paths follow the Unix rules: `/` separates components and a path is
//! absolute when it starts with `/`.

use vstd::prelude::*;
use vstd::string::StringSliceAdditionalSpecFns;
use vstd::utf8::{decode_utf8, encode_utf8, valid_utf8};

verus! {

/// The text of an OS string, when it is valid UTF-8.
pub open spec fn os_text(bytes: Seq<u8>) -> Option<Seq<char>> {
    if valid_utf8(bytes) {
        Some(decode_utf8(bytes))
    } else {
        None
    }
}

/// The text view of an optional string.
pub open spec fn opt_text(o: Option<String>) -> Option<Seq<char>> {
    match o {
        Some(t) => Some(t@),
        None => None,
    }
}

/// Calls `std::str::from_utf8`, which accepts exactly the valid UTF-8 byte
/// strings and decodes them. Trusted: that vstd's `valid_utf8` and
/// `decode_utf8` say what that function does.
#[verifier::external_body]
pub(crate) fn utf8_text(bytes: &[u8]) -> (res: Option<String>)
    ensures
        opt_text(res) == os_text(bytes@),
{
    match std::str::from_utf8(bytes) {
        Ok(text) => Some(text.to_owned()),
        Err(_) => None,
    }
}

/// Whether an OS string reads as exactly the text `expected`.
pub fn os_text_is(bytes: &[u8], expected: &str) -> (res: bool)
    ensures
        res == (os_text(bytes@) == Some(expected@)),
{
    match utf8_text(bytes) {
        Some(text) => text.as_str().to_owned() == expected.to_owned(),
        None => false,
    }
}

/// The `/` byte.
pub open spec fn separator() -> u8 {
    0x2fu8
}

/// A path is absolute when it starts with `/`.
pub open spec fn is_absolute_path(path: Seq<u8>) -> bool {
    path.len() > 0 && path[0] == separator()
}

/// `Path::join` on Unix: an absolute `part` replaces `base`; otherwise `part`
/// follows `base`, with a `/` between them unless `base` is empty or already
/// ends with one.
pub open spec fn join_path(base: Seq<u8>, part: Seq<u8>) -> Seq<u8> {
    if is_absolute_path(part) {
        part
    } else if base.len() == 0 || base.last() == separator() {
        base + part
    } else {
        base + seq![separator()] + part
    }
}

/// Whether `path` is absolute.
pub fn path_is_absolute(path: &Vec<u8>) -> (res: bool)
    ensures
        res == is_absolute_path(path@),
{
    path.len() > 0 && path[0] == 0x2fu8
}

/// Appends to `out` all of `part`.
fn extend_bytes(out: &mut Vec<u8>, part: &[u8])
    ensures
        final(out)@ == old(out)@ + part@,
{
    let mut i: usize = 0;
    while i < part.len()
        invariant
            i <= part@.len(),
            out@ == old(out)@ + part@.take(i as int),
        decreases part.len() - i,
    {
        assert(part@.take(i + 1) =~= part@.take(i as int).push(part@[i as int]));
        out.push(part[i]);
        i = i + 1;
    }
    assert(part@.take(part@.len() as int) =~= part@);
}

/// `base` joined with `part`, as `Path::join` does it on Unix.
pub fn path_join(base: &[u8], part: &[u8]) -> (res: Vec<u8>)
    ensures
        res@ == join_path(base@, part@),
{
    let mut out: Vec<u8> = Vec::new();
    if part.len() > 0 && part[0] == 0x2fu8 {
        extend_bytes(&mut out, part);
        assert(out@ =~= part@);
        return out;
    }
    extend_bytes(&mut out, base);
    if base.len() > 0 && base[base.len() - 1] != 0x2fu8 {
        out.push(0x2fu8);
    }
    extend_bytes(&mut out, part);
    assert(out@ =~= join_path(base@, part@));
    out
}

/// A copy of `bytes`.
pub fn copy_bytes(bytes: &[u8]) -> (res: Vec<u8>)
    ensures
        res@ == bytes@,
{
    let mut out: Vec<u8> = Vec::new();
    extend_bytes(&mut out, bytes);
    assert(out@ =~= bytes@);
    out
}

/// Whether two byte strings are equal.
pub fn bytes_eq(a: &[u8], b: &[u8]) -> (res: bool)
    ensures
        res == (a@ == b@),
{
    if a.len() != b.len() {
        return false;
    }
    let mut i: usize = 0;
    while i < a.len()
        invariant
            a@.len() == b@.len(),
            i <= a@.len(),
            forall|k: int| 0 <= k < i ==> a@[k] == b@[k],
        decreases a.len() - i,
    {
        if a[i] != b[i] {
            return false;
        }
        i = i + 1;
    }
    assert(a@ =~= b@);
    true
}

/// The bytes of a text, as `str::as_bytes` gives them.
pub fn text_bytes(text: &str) -> (res: Vec<u8>)
    ensures
        res@ == encode_utf8(text@),
{
    let mut out: Vec<u8> = Vec::new();
    extend_bytes(&mut out, text.as_bytes());
    assert(out@ =~= text.spec_bytes());
    out
}

/// The text `String::from_utf8_lossy` makes of a byte string.
pub uninterp spec fn spec_utf8_lossy(bytes: Seq<u8>) -> Seq<char>;

/// Calls `String::from_utf8_lossy`, which decodes the bytes and puts U+FFFD
/// in place of each invalid sequence. Trusted: that the text is a function
/// of the bytes alone, and that valid UTF-8 decodes as itself, as the
/// function's documentation says.
#[verifier::external_body]
pub(crate) fn utf8_lossy(bytes: &[u8]) -> (res: String)
    ensures
        res@ == spec_utf8_lossy(bytes@),
        valid_utf8(bytes@) ==> res@ == decode_utf8(bytes@),
{
    String::from_utf8_lossy(bytes).into_owned()
}

/// The position of the last `/` in `path`.
pub open spec fn last_separator(path: Seq<u8>) -> Option<int>
    decreases path.len(),
{
    if path.len() == 0 {
        None
    } else if path.last() == separator() {
        Some(path.len() - 1)
    } else {
        last_separator(path.drop_last())
    }
}

/// Where `last_separator` points.
pub proof fn lemma_last_separator(path: Seq<u8>)
    ensures
        match last_separator(path) {
            Some(i) => 0 <= i < path.len() && path[i] == separator() && forall|k: int|
                i < k < path.len() ==> path[k] != separator(),
            None => forall|k: int| 0 <= k < path.len() ==> path[k] != separator(),
        },
    decreases path.len(),
{
    if path.len() > 0 && path.last() != separator() {
        lemma_last_separator(path.drop_last());
        assert(forall|k: int| 0 <= k < path.len() - 1 ==> path.drop_last()[k] == path[k]);
    }
}

/// The `.` component.
pub open spec fn current_dir_name() -> Seq<u8> {
    seq![0x2eu8]
}

/// The `..` component.
pub open spec fn parent_dir_name() -> Seq<u8> {
    seq![0x2eu8, 0x2eu8]
}

/// `Path::file_name` on Unix: the last component of `path`, where empty
/// components and `.` components after the first are skipped; there is none
/// when what is left ends with `..`, is only `.`, or is only the root.
pub open spec fn file_name(path: Seq<u8>) -> Option<Seq<u8>>
    decreases path.len(),
{
    if path.len() == 0 {
        None
    } else if path.last() == separator() {
        file_name(path.drop_last())
    } else {
        let start = match last_separator(path) {
            Some(i) => i + 1,
            None => 0,
        };
        let component = path.subrange(start, path.len() as int);
        if component == current_dir_name() {
            if start == 0 {
                None
            } else {
                proof {
                    lemma_last_separator(path);
                }
                file_name(path.subrange(0, start))
            }
        } else if component == parent_dir_name() {
            None
        } else {
            Some(component)
        }
    }
}

/// The view of an optional byte string.
pub open spec fn opt_seq(o: Option<Vec<u8>>) -> Option<Seq<u8>> {
    match o {
        Some(v) => Some(v@),
        None => None,
    }
}

/// The last component of a path, as `Path::file_name` gives it on Unix.
pub fn path_file_name(path: &[u8]) -> (res: Option<Vec<u8>>)
    ensures
        opt_seq(res) == file_name(path@),
{
    let mut end: usize = path.len();
    assert(path@.subrange(0, end as int) =~= path@);
    loop
        invariant
            end <= path@.len(),
            file_name(path@.subrange(0, end as int)) == file_name(path@),
        decreases end,
    {
        let ghost prefix = path@.subrange(0, end as int);
        if end == 0 {
            return None;
        }
        if path[end - 1] == 0x2fu8 {
            assert(prefix.drop_last() =~= path@.subrange(0, end - 1));
            end = end - 1;
        } else {
            let mut start: usize = end - 1;
            while start > 0 && path[start - 1] != 0x2fu8
                invariant
                    start < end <= path@.len(),
                    forall|k: int| start <= k < end ==> path@[k] != separator(),
                decreases start,
            {
                start = start - 1;
            }
            proof {
                lemma_last_separator(prefix);
                if start > 0 {
                    assert(prefix[start - 1] == separator());
                    assert(last_separator(prefix) == Some(start - 1));
                } else {
                    assert(last_separator(prefix) is None);
                }
                assert(prefix.subrange(start as int, prefix.len() as int) =~= path@.subrange(
                    start as int,
                    end as int,
                ));
            }
            if end - start == 1 && path[start] == 0x2eu8 {
                assert(path@.subrange(start as int, end as int) =~= current_dir_name());
                if start == 0 {
                    return None;
                }
                assert(prefix.subrange(0, start as int) =~= path@.subrange(0, start as int));
                end = start;
            } else if end - start == 2 && path[start] == 0x2eu8 && path[start + 1] == 0x2eu8 {
                assert(path@.subrange(start as int, end as int) =~= parent_dir_name());
                return None;
            } else {
                proof {
                    let c = path@.subrange(start as int, end as int);
                    if c.len() == 1 {
                        assert(c[0] != current_dir_name()[0]);
                    } else if c.len() == 2 {
                        assert(c[0] != parent_dir_name()[0] || c[1] != parent_dir_name()[1]);
                    }
                }
                let mut component: Vec<u8> = Vec::new();
                let mut k: usize = start;
                while k < end
                    invariant
                        start <= k <= end <= path@.len(),
                        component@ == path@.subrange(start as int, k as int),
                    decreases end - k,
                {
                    component.push(path[k]);
                    assert(component@ =~= path@.subrange(start as int, k + 1));
                    k = k + 1;
                }
                return Some(component);
            }
        }
    }
}

/// Where the piece of `path` that starts at `start` ends: at the next `/`,
/// or at the end.
pub open spec fn piece_end(path: Seq<u8>, start: int) -> int
    decreases path.len() - start,
{
    if start < 0 || start >= path.len() {
        path.len() as int
    } else if path[start] == separator() {
        start
    } else {
        piece_end(path, start + 1)
    }
}

/// `piece_end` lies between `start` and the end, holds no `/` before it,
/// and is a `/` when it is not the end.
pub proof fn lemma_piece_end(path: Seq<u8>, start: int)
    requires
        0 <= start <= path.len(),
    ensures
        start <= piece_end(path, start) <= path.len(),
        forall|k: int| start <= k < piece_end(path, start) ==> path[k] != separator(),
        piece_end(path, start) < path.len() ==> path[piece_end(path, start)] == separator(),
    decreases path.len() - start,
{
    if start < path.len() && path[start] != separator() {
        lemma_piece_end(path, start + 1);
    }
}

/// The normal components of `path` from `start` on: the pieces between
/// `/`s, without empty ones and `.`.
pub open spec fn pieces_from(path: Seq<u8>, start: int) -> Seq<Seq<u8>>
    decreases path.len() + 1 - start,
{
    if start < 0 || start >= path.len() {
        Seq::empty()
    } else {
        let end = piece_end(path, start);
        let piece = path.subrange(start, end);
        let kept: Seq<Seq<u8>> = if piece.len() > 0 && piece != current_dir_name() {
            seq![piece]
        } else {
            Seq::empty()
        };
        proof {
            lemma_piece_end(path, start);
        }
        kept + pieces_from(path, end + 1)
    }
}

/// The component that stands for the root, which no other component equals
/// since no other holds a `/`.
pub open spec fn root_component() -> Seq<u8> {
    seq![separator()]
}

/// `Path::components` on Unix: the root when the path starts with `/`, else
/// `.` when the path is `.` or starts with `./`; then each piece between
/// `/`s but empty ones and `.`. Two paths are equal as paths when these
/// are.
pub open spec fn path_components(path: Seq<u8>) -> Seq<Seq<u8>> {
    let first: Seq<Seq<u8>> = if is_absolute_path(path) {
        seq![root_component()]
    } else if path.len() > 0 && path[0] == 0x2eu8 && (path.len() == 1 || path[1] == separator()) {
        seq![current_dir_name()]
    } else {
        Seq::empty()
    };
    first + pieces_from(path, 0)
}

/// The components of `path`, as `Path::components` gives them on Unix.
pub fn components_of(path: &[u8]) -> (res: Vec<Vec<u8>>)
    ensures
        res.deep_view() == path_components(path@),
{
    let mut out: Vec<Vec<u8>> = Vec::new();
    if path.len() > 0 && path[0] == 0x2fu8 {
        let mut root: Vec<u8> = Vec::new();
        root.push(0x2fu8);
        assert(root@ =~= root_component());
        out.push(root);
        assert(out.deep_view()[0] == out@[0]@);
        assert(out.deep_view() =~= seq![root_component()]);
    } else if path.len() > 0 && path[0] == 0x2eu8 && (path.len() == 1 || path[1] == 0x2fu8) {
        let mut dot: Vec<u8> = Vec::new();
        dot.push(0x2eu8);
        assert(dot@ =~= current_dir_name());
        out.push(dot);
        assert(out.deep_view()[0] == out@[0]@);
        assert(out.deep_view() =~= seq![current_dir_name()]);
    }
    let ghost first = out.deep_view();
    assert(first =~= path_components(path@).take(first.len() as int)) by {
        assert(out.deep_view() =~= (if is_absolute_path(path@) {
            seq![root_component()]
        } else if path@.len() > 0 && path@[0] == 0x2eu8 && (path@.len() == 1 || path@[1] == separator()) {
            seq![current_dir_name()]
        } else {
            Seq::<Seq<u8>>::empty()
        }));
    }
    let mut start: usize = 0;
    while start < path.len()
        invariant
            start <= path@.len(),
            first + pieces_from(path@, 0) == path_components(path@),
            out.deep_view() + pieces_from(path@, start as int) == path_components(path@),
        decreases path.len() - start,
    {
        let mut end: usize = start;
        while end < path.len() && path[end] != 0x2fu8
            invariant
                start <= end <= path@.len(),
                forall|k: int| start <= k < end ==> path@[k] != separator(),
            decreases path.len() - end,
        {
            end = end + 1;
        }
        proof {
            lemma_piece_end(path@, start as int);
            let e = piece_end(path@, start as int);
            if e < end {
                assert(path@[e] == separator());
            } else if end < e {
                assert(path@[end as int] != separator());
            }
            assert(e == end);
        }
        let ghost before = out.deep_view();
        let ghost piece = path@.subrange(start as int, end as int);
        if end > start && !(end - start == 1 && path[start] == 0x2eu8) {
            let mut component: Vec<u8> = Vec::new();
            let mut k: usize = start;
            while k < end
                invariant
                    start <= k <= end <= path@.len(),
                    component@ == path@.subrange(start as int, k as int),
                decreases end - k,
            {
                component.push(path[k]);
                assert(component@ =~= path@.subrange(start as int, k + 1));
                k = k + 1;
            }
            proof {
                if piece.len() == 1 {
                    assert(piece[0] != current_dir_name()[0]);
                }
            }
            assert(component@ == piece);
            out.push(component);
            assert(out.deep_view()[before.len() as int] == out@[before.len() as int]@);
            assert forall|j: int| 0 <= j < before.len() implies out.deep_view()[j] == before[j] by {
                assert(out.deep_view()[j] == out@[j]@);
            }
            assert(out.deep_view() =~= before + seq![piece]);
            assert(pieces_from(path@, start as int) == seq![piece] + pieces_from(path@, end + 1));
        } else {
            proof {
                if end > start {
                    assert(piece =~= current_dir_name());
                }
            }
            assert(pieces_from(path@, start as int) =~= pieces_from(path@, end + 1));
        }
        assert(out.deep_view() + pieces_from(path@, end + 1) =~= path_components(path@));
        if end == path.len() {
            assert(pieces_from(path@, end + 1) =~= Seq::<Seq<u8>>::empty());
            assert(out.deep_view() =~= path_components(path@));
            return out;
        }
        start = end + 1;
    }
    assert(pieces_from(path@, start as int) =~= Seq::<Seq<u8>>::empty());
    assert(out.deep_view() =~= path_components(path@));
    out
}

/// Whether two paths are the same path: `Path`'s `==`, which compares
/// components.
pub fn same_path(a: &[u8], b: &[u8]) -> (res: bool)
    ensures
        res == (path_components(a@) == path_components(b@)),
{
    let left = components_of(a);
    let right = components_of(b);
    assert(left.deep_view().len() == left.len() && right.deep_view().len() == right.len());
    if left.len() != right.len() {
        return false;
    }
    let mut i: usize = 0;
    while i < left.len()
        invariant
            left.deep_view() == path_components(a@),
            right.deep_view() == path_components(b@),
            left.len() == right.len(),
            i <= left.len(),
            forall|k: int| 0 <= k < i ==> left.deep_view()[k] == right.deep_view()[k],
        decreases left.len() - i,
    {
        assert(left.deep_view()[i as int] == left@[i as int]@);
        assert(right.deep_view()[i as int] == right@[i as int]@);
        if !bytes_eq(left[i].as_slice(), right[i].as_slice()) {
            return false;
        }
        i = i + 1;
    }
    assert(left.deep_view() =~= right.deep_view());
    true
}

} // verus!
