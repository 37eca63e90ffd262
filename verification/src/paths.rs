//! File-system paths.
//!
//! A path is a string of bytes, as on every Unix; it need not be UTF-8.

use crate::text;
use vstd::prelude::*;
use vstd::utf8;

verus! {

/// The byte that separates the components of a path.
pub const SLASH: u8 = 0x2f;

/// The byte that separates a file name from its extension.
pub const DOT: u8 = 0x2e;

/// `name` inside `dir`. An absolute `name` replaces `dir`.
pub open spec fn joined(dir: Seq<u8>, name: Seq<u8>) -> Seq<u8> {
    if name.len() > 0 && name[0] == SLASH {
        name
    } else if dir.len() == 0 || dir.last() == SLASH {
        dir + name
    } else {
        dir.push(SLASH) + name
    }
}

/// `name` inside `dir`. An absolute `name` replaces `dir`.
pub fn join(dir: &[u8], name: &[u8]) -> (r: Vec<u8>)
    ensures
        r@ == joined(dir@, name@),
{
    let mut r: Vec<u8> = Vec::new();
    if name.len() > 0 && name[0] == SLASH {
        r.extend_from_slice(name);
        return r;
    }
    r.extend_from_slice(dir);
    assert(r@ == dir@);
    if dir.len() > 0 && dir[dir.len() - 1] != SLASH {
        r.push(SLASH);
    }
    r.extend_from_slice(name);
    assert(r@ == joined(dir@, name@));
    r
}

/// What follows the last `sep` of `s`; all of `s` when there is none.
pub open spec fn after_last(s: Seq<u8>, sep: u8) -> Seq<u8>
    decreases s.len(),
{
    if s.len() == 0 || s.last() == sep {
        Seq::empty()
    } else {
        after_last(s.drop_last(), sep).push(s.last())
    }
}

/// The final component of a path. Trailing slashes and `.` components do not
/// count; a path that ends in `..` has none.
pub open spec fn name_of(path: Seq<u8>) -> Option<Seq<u8>>
    decreases path.len(),
{
    let name = after_last(path, SLASH);
    if path.len() == 0 {
        None
    } else if name.len() == 0 || name == seq![DOT] {
        name_of(path.drop_last())
    } else if name == seq![DOT, DOT] {
        None
    } else {
        Some(name)
    }
}

/// A file name without its extension. A name whose only dot is its first
/// character has no extension.
pub open spec fn stem_of(name: Seq<u8>) -> Seq<u8> {
    match extension_of(name) {
        Some(ext) => name.take(name.len() - ext.len() - 1),
        None => name,
    }
}

/// What follows the last dot of a file name, unless that dot is its first
/// character.
pub open spec fn extension_of(name: Seq<u8>) -> Option<Seq<u8>> {
    let ext = after_last(name, DOT);
    if ext.len() + 1 < name.len() {
        Some(ext)
    } else {
        None
    }
}

/// What [`after_last`] is: a suffix without `sep`, and the longest such.
pub proof fn after_last_is_a_suffix(s: Seq<u8>, sep: u8)
    ensures
        after_last(s, sep).len() <= s.len(),
        after_last(s, sep) == s.skip(s.len() - after_last(s, sep).len()),
        !after_last(s, sep).contains(sep),
        after_last(s, sep).len() < s.len() ==> s[s.len() - after_last(s, sep).len() - 1] == sep,
    decreases s.len(),
{
    if s.len() > 0 && s.last() != sep {
        let shorter = s.drop_last();
        after_last_is_a_suffix(shorter, sep);
        let tail = after_last(shorter, sep);
        let longer = after_last(s, sep);
        assert(longer == s.skip(s.len() - longer.len()));
        assert forall|i: int| 0 <= i < longer.len() implies longer[i] != sep by {
            if i < tail.len() {
                assert(longer[i] == tail[i]);
                assert(tail.contains(tail[i]));
            }
        }
    }
}

/// [`after_last`] is the only suffix with its two properties.
pub proof fn after_last_is(s: Seq<u8>, sep: u8, from: int)
    requires
        0 <= from <= s.len(),
        forall|i: int| from <= i < s.len() ==> s[i] != sep,
        from > 0 ==> s[from - 1] == sep,
    ensures
        after_last(s, sep) == s.skip(from),
    decreases s.len(),
{
    if from < s.len() {
        let shorter = s.drop_last();
        after_last_is(shorter, sep, from);
        assert(s.skip(from) == shorter.skip(from).push(s.last()));
    } else {
        assert(s.skip(from) == Seq::<u8>::empty());
    }
}

/// The position after the last `sep` in front of `end`.
fn start_after(s: &[u8], end: usize, sep: u8) -> (from: usize)
    requires
        end <= s@.len(),
    ensures
        from <= end,
        after_last(s@.take(end as int), sep) == s@.subrange(from as int, end as int),
        from > 0 ==> s@[from - 1] == sep,
{
    let mut from: usize = end;
    while from > 0 && s[from - 1] != sep
        invariant
            from <= end <= s@.len(),
            forall|i: int| from <= i < end ==> s@[i] != sep,
        decreases from,
    {
        from = from - 1;
    }
    proof {
        after_last_is(s@.take(end as int), sep, from as int);
        assert(s@.take(end as int).skip(from as int) == s@.subrange(from as int, end as int));
    }
    from
}

/// A copy of `s[from..to]`.
fn copy_of(s: &[u8], from: usize, to: usize) -> (r: Vec<u8>)
    requires
        from <= to <= s@.len(),
    ensures
        r@ == s@.subrange(from as int, to as int),
{
    let mut r: Vec<u8> = Vec::new();
    r.extend_from_slice(&s[from..to]);
    assert(r@ == s@.subrange(from as int, to as int));
    r
}

/// The final component of a path.
pub fn file_name(path: &[u8]) -> (r: Option<Vec<u8>>)
    ensures
        crate::ipc::path_view(r) == name_of(path@),
{
    let mut end: usize = path.len();
    assert(path@.take(end as int) == path@);
    while end > 0
        invariant
            end <= path@.len(),
            name_of(path@) == name_of(path@.take(end as int)),
        decreases end,
    {
        let from: usize = start_after(path, end, SLASH);
        let ghost head = path@.take(end as int);
        let ghost name = path@.subrange(from as int, end as int);
        assert(head.drop_last() == path@.take(end - 1));
        if from == end || (end - from == 1 && path[from] == DOT) {
            assert(name.len() == 0 || name =~= seq![DOT]);
            end = end - 1;
        } else if end - from == 2 && path[from] == DOT && path[from + 1] == DOT {
            assert(name =~= seq![DOT, DOT]);
            return None;
        } else {
            assert(name.len() > 0);
            assert(name != seq![DOT]) by {
                if name == seq![DOT] {
                    assert(name[0] == path@[from as int]);
                }
            }
            assert(name != seq![DOT, DOT]) by {
                if name == seq![DOT, DOT] {
                    assert(name[0] == path@[from as int]);
                    assert(name[1] == path@[from + 1]);
                }
            }
            return Some(copy_of(path, from, end));
        }
    }
    None
}

/// A file name without its extension.
pub fn stem(name: &[u8]) -> (r: Vec<u8>)
    ensures
        r@ == stem_of(name@),
{
    let from: usize = start_after(name, name.len(), DOT);
    assert(name@.take(name@.len() as int) == name@);
    if from > 1 {
        copy_of(name, 0, from - 1)
    } else {
        let r = copy_of(name, 0, name.len());
        assert(r@ == name@);
        r
    }
}

/// The extension of a file name.
pub fn extension(name: &[u8]) -> (r: Option<Vec<u8>>)
    ensures
        crate::ipc::path_view(r) == extension_of(name@),
{
    let from: usize = start_after(name, name.len(), DOT);
    assert(name@.take(name@.len() as int) == name@);
    if from > 1 {
        Some(copy_of(name, from, name.len()))
    } else {
        None
    }
}

/// Whether `name` can name a file in a directory.
pub open spec fn plain_name(name: Seq<u8>) -> bool {
    &&& name.len() > 0
    &&& !name.contains(SLASH)
    &&& name != seq![DOT]
    &&& name != seq![DOT, DOT]
}

/// A file put into a directory has its name as the final component, and
/// stands behind the same prefix as every other file of that directory.
pub proof fn file_in_dir_has_its_name(dir: Seq<u8>, name: Seq<u8>)
    requires
        plain_name(name),
    ensures
        name_of(joined(dir, name)) == Some(name),
        joined(dir, name) == joined(dir, Seq::empty()) + name,
{
    let path = joined(dir, name);
    assert(name.contains(name[0]));
    assert(path == joined(dir, Seq::empty()) + name);
    let from = path.len() - name.len();
    assert forall|i: int| from <= i < path.len() implies path[i] != SLASH by {
        assert(path[i] == name[i - from]);
        assert(name.contains(name[i - from]));
    }
    after_last_is(path, SLASH, from);
    assert(path.skip(from) == name);
}

/// Where the control socket is by default, in the given runtime directory.
pub open spec fn socket_path_in(runtime_dir: Option<Seq<u8>>) -> Option<Seq<u8>> {
    match runtime_dir {
        Some(dir) if dir.len() > 0 => Some(joined(dir, utf8::encode_utf8("osnip.sock"@))),
        _ => None,
    }
}

/// Default path of the control socket, given the value of
/// `XDG_RUNTIME_DIR`.
///
/// There is none when the variable is unset or empty: a world-writable
/// fallback is unsuitable for a control socket.
#[must_use]
pub fn default_socket_path(runtime_dir: Option<&Vec<u8>>) -> (r: Option<Vec<u8>>)
    ensures
        crate::ipc::path_view(r) == socket_path_in(
            match runtime_dir {
                Some(dir) => Some(dir@),
                None => None,
            },
        ),
{
    match runtime_dir {
        Some(dir) if dir.len() > 0 => Some(join(dir, "osnip.sock".as_bytes())),
        _ => None,
    }
}

/// The part of the socket path that keys a daemon's thumbnail directory: the
/// stem of its file name, or `osnip` when there is none that is UTF-8.
pub open spec fn socket_stem(socket: Seq<u8>) -> Seq<u8> {
    match name_of(socket) {
        Some(name) if utf8::valid_utf8(stem_of(name)) => stem_of(name),
        _ => utf8::encode_utf8("osnip"@),
    }
}

/// Where the daemon that listens on `socket` keeps its thumbnails.
pub open spec fn thumbnail_dir_in(runtime_dir: Option<Seq<u8>>, socket: Seq<u8>) -> Option<
    Seq<u8>,
> {
    match runtime_dir {
        Some(dir) if dir.len() > 0 => Some(
            joined(
                joined(dir, utf8::encode_utf8("osnip"@)),
                socket_stem(socket) + utf8::encode_utf8("-thumbs"@),
            ),
        ),
        _ => None,
    }
}

/// Directory for the thumbnails of the daemon that listens on `socket`, given
/// the value of `XDG_RUNTIME_DIR`.
///
/// The directory is keyed by the stem of the socket's file name. A daemon
/// wipes its directory on startup, so two daemons on two sockets must not
/// share one.
#[must_use]
pub fn thumbnail_dir_for(runtime_dir: Option<&Vec<u8>>, socket: &[u8]) -> (r: Option<Vec<u8>>)
    ensures
        crate::ipc::path_view(r) == thumbnail_dir_in(
            match runtime_dir {
                Some(dir) => Some(dir@),
                None => None,
            },
            socket@,
        ),
{
    match runtime_dir {
        Some(dir) if dir.len() > 0 => {
            let mut leaf: Vec<u8> = Vec::new();
            let found: Option<Vec<u8>> = match file_name(socket) {
                Some(name) => {
                    let s = stem(&name);
                    match text::from_utf8(&s) {
                        Ok(_) => Some(s),
                        Err(_) => None,
                    }
                },
                None => None,
            };
            match found {
                Some(s) => leaf.extend_from_slice(&s),
                None => leaf.extend_from_slice("osnip".as_bytes()),
            }
            assert(leaf@ == socket_stem(socket@));
            leaf.extend_from_slice("-thumbs".as_bytes());
            assert(leaf@ == socket_stem(socket@) + utf8::encode_utf8("-thumbs"@));
            Some(join(&join(dir, "osnip".as_bytes()), &leaf))
        },
        _ => None,
    }
}

/// Daemons whose sockets have different stems keep their thumbnails in
/// different directories.
pub proof fn different_stems_have_different_thumbnail_dirs(
    runtime_dir: Option<Seq<u8>>,
    a: Seq<u8>,
    b: Seq<u8>,
)
    requires
        thumbnail_dir_in(runtime_dir, a) is Some,
        socket_stem(a) != socket_stem(b),
    ensures
        thumbnail_dir_in(runtime_dir, a) != thumbnail_dir_in(runtime_dir, b),
{
    let base = joined(runtime_dir->0, utf8::encode_utf8("osnip"@));
    let suffix = utf8::encode_utf8("-thumbs"@);
    socket_stem_is_plain(a);
    socket_stem_is_plain(b);
    let x = socket_stem(a) + suffix;
    let y = socket_stem(b) + suffix;
    file_in_dir_has_its_name(base, x);
    file_in_dir_has_its_name(base, y);
    if x == y {
        assert(socket_stem(a) == x.take(x.len() - suffix.len()));
        assert(socket_stem(b) == y.take(y.len() - suffix.len()));
    }
    assert(x != y);
}

/// The leaf of a thumbnail directory is a plain file name.
proof fn socket_stem_is_plain(socket: Seq<u8>)
    ensures
        plain_name(socket_stem(socket) + utf8::encode_utf8("-thumbs"@)),
{
    let suffix = utf8::encode_utf8("-thumbs"@);
    reveal_strlit("-thumbs");
    reveal_strlit("osnip");
    utf8::is_ascii_chars_encode_utf8("-thumbs"@);
    utf8::is_ascii_chars_encode_utf8("osnip"@);
    let fallback = utf8::encode_utf8("osnip"@);
    assert(!suffix.contains(SLASH));
    assert(!fallback.contains(SLASH));
    let stem = socket_stem(socket);
    match name_of(socket) {
        Some(name) => {
            name_of_has_no_slash(socket);
            after_last_is_a_suffix(name, DOT);
            assert forall|i: int| 0 <= i < stem_of(name).len() implies stem_of(name)[i]
                != SLASH by {
                assert(stem_of(name)[i] == name[i]);
                assert(name.contains(name[i]));
            }
        },
        None => {},
    }
    let leaf = stem + suffix;
    assert forall|i: int| 0 <= i < leaf.len() implies leaf[i] != SLASH by {
        if i < stem.len() {
            assert(leaf[i] == stem[i]);
            assert(stem.contains(stem[i]));
        } else {
            assert(leaf[i] == suffix[i - stem.len()]);
            assert(suffix.contains(suffix[i - stem.len()]));
        }
    }
    assert(leaf.len() >= 7);
}

/// A file name holds no slash.
proof fn name_of_has_no_slash(path: Seq<u8>)
    ensures
        match name_of(path) {
            Some(name) => !name.contains(SLASH),
            None => true,
        },
    decreases path.len(),
{
    after_last_is_a_suffix(path, SLASH);
    if path.len() > 0 {
        name_of_has_no_slash(path.drop_last());
    }
}

/// The socket that the daemon listens on: the one that the environment names, or
/// else the default one.
pub open spec fn daemon_socket_in(named: Option<Seq<u8>>, runtime_dir: Option<Seq<u8>>) -> Option<
    Seq<u8>,
> {
    match named {
        Some(path) => Some(path),
        None => socket_path_in(runtime_dir),
    }
}

/// The socket that the daemon listens on, given the value of `OSNIP_SOCKET`.
pub fn daemon_socket(named: Option<Vec<u8>>, runtime_dir: Option<&Vec<u8>>) -> (r: Result<
    Vec<u8>,
    String,
>)
    ensures
        ({
            let socket = daemon_socket_in(
                crate::ipc::path_view(named),
                match runtime_dir {
                    Some(dir) => Some(dir@),
                    None => None,
                },
            );
            match r {
                Ok(path) => socket == Some(path@),
                Err(message) => socket is None && message@
                    == "XDG_RUNTIME_DIR is unset; set OSNIP_SOCKET to override"@,
            }
        }),
{
    match named {
        Some(path) => Ok(path),
        None => match default_socket_path(runtime_dir) {
            Some(path) => Ok(path),
            None => Err("XDG_RUNTIME_DIR is unset; set OSNIP_SOCKET to override".to_owned()),
        },
    }
}

/// A file in a directory has the path of the directory, a slash unless there is one
/// already, and its name. An absolute name is its own path.
pub proof fn a_path_is_the_directory_and_the_name(dir: Seq<u8>, name: Seq<u8>)
    ensures
        name.len() > 0 && name[0] == 0x2f ==> joined(dir, name) == name,
        !(name.len() > 0 && name[0] == 0x2f) ==> {
            &&& dir.len() > 0 && dir.last() != 0x2f ==> joined(dir, name) == dir + seq![0x2fu8] + name
            &&& dir.len() == 0 || dir.last() == 0x2f ==> joined(dir, name) == dir + name
        },
{
    assert(dir.push(SLASH) + name =~= dir + seq![0x2fu8] + name);
}

/// The final component of a path stands behind its last slash.
pub proof fn the_name_stands_behind_the_last_slash(front: Seq<u8>, name: Seq<u8>)
    requires
        name.len() > 0,
        forall|i: int| 0 <= i < name.len() ==> #[trigger] name[i] != 0x2f,
        name != seq![0x2eu8],
        name != seq![0x2eu8, 0x2eu8],
    ensures
        name_of(name) == Some(name),
        name_of(front.push(0x2f) + name) == Some(name),
{
    let path = front.push(0x2f) + name;
    after_last_is(name, SLASH, 0);
    assert(name.skip(0) =~= name);
    let from = front.len() + 1;
    assert forall|i: int| from <= i < path.len() implies path[i] != SLASH by {
        assert(path[i] == name[i - from]);
    }
    after_last_is(path, SLASH, from as int);
    assert(path.skip(from as int) =~= name);
}

/// A slash at the end does not count, and neither does a component that is a dot. Two
/// dots are no name, and neither is nothing.
pub proof fn slashes_and_dots_at_the_end_are_no_name(path: Seq<u8>)
    ensures
        name_of(Seq::<u8>::empty()) is None,
        name_of(path.push(0x2f)) == name_of(path),
        name_of(path.push(0x2f).push(0x2e)) == name_of(path),
        name_of(path.push(0x2f).push(0x2e).push(0x2e)) is None,
        name_of(seq![0x2eu8]) is None,
        name_of(seq![0x2eu8, 0x2eu8]) is None,
{
    let slash = path.push(0x2f);
    assert(slash.drop_last() =~= path);
    assert(after_last(slash, SLASH).len() == 0);
    assert(name_of(slash) == name_of(path));
    let dot = slash.push(0x2e);
    assert(dot.drop_last() =~= slash);
    after_last_is(dot, SLASH, slash.len() as int);
    assert(dot.skip(slash.len() as int) =~= seq![DOT]);
    let dots = dot.push(0x2e);
    after_last_is(dots, SLASH, slash.len() as int);
    assert(dots.skip(slash.len() as int) =~= seq![DOT, DOT]);
    let one = seq![0x2eu8];
    after_last_is(one, SLASH, 0);
    assert(one.skip(0) =~= seq![DOT]);
    assert(one.drop_last() =~= Seq::empty());
    assert(name_of(Seq::<u8>::empty()) is None);
    let two = seq![0x2eu8, 0x2eu8];
    after_last_is(two, SLASH, 0);
    assert(two.skip(0) =~= seq![DOT, DOT]);
}

/// A file name is cut at its last dot into its stem and its extension, unless that is
/// its first character. A name without a dot is its own stem.
pub proof fn names_are_cut_at_their_last_dot(front: Seq<u8>, back: Seq<u8>)
    requires
        forall|i: int| 0 <= i < back.len() ==> #[trigger] back[i] != 0x2e,
    ensures
        front.len() > 0 ==> stem_of(front.push(0x2e) + back) == front,
        front.len() > 0 ==> extension_of(front.push(0x2e) + back) == Some(back),
        stem_of(back) == back,
        extension_of(back) is None,
        stem_of(seq![0x2eu8] + back) == seq![0x2eu8] + back,
        extension_of(seq![0x2eu8] + back) is None,
{
    let name = front.push(0x2e) + back;
    let from = front.len() + 1;
    assert forall|i: int| from <= i < name.len() implies name[i] != DOT by {
        assert(name[i] == back[i - from]);
    }
    after_last_is(name, DOT, from as int);
    assert(name.skip(from as int) =~= back);
    if front.len() > 0 {
        assert(name.take(name.len() - back.len() - 1) =~= front);
    }
    after_last_is(back, DOT, 0);
    assert(back.skip(0) =~= back);
    let hidden = seq![0x2eu8] + back;
    assert forall|i: int| 1 <= i < hidden.len() implies hidden[i] != DOT by {
        assert(hidden[i] == back[i - 1]);
    }
    after_last_is(hidden, DOT, 1);
    assert(hidden.skip(1) =~= back);
}

/// The default socket is `osnip.sock` in the runtime directory. Without one there is
/// none.
pub proof fn the_default_socket_is_in_the_runtime_directory(runtime_dir: Option<Seq<u8>>)
    ensures
        socket_path_in(runtime_dir) is Some <==> runtime_dir is Some && runtime_dir->0.len() > 0,
        socket_path_in(runtime_dir) is Some ==> socket_path_in(runtime_dir)->0 == joined(
            runtime_dir->0,
            utf8::encode_utf8("osnip.sock"@),
        ),
{
}

/// The thumbnails of a daemon lie in the runtime directory, under `osnip`, in a
/// directory that is named after the socket's file without its extension. Without a
/// runtime directory there are none.
pub proof fn thumbnails_lie_in_the_runtime_directory(
    runtime_dir: Option<Seq<u8>>,
    front: Seq<u8>,
    stem: Seq<u8>,
    ext: Seq<u8>,
)
    requires
        stem.len() > 0,
        utf8::valid_utf8(stem),
        forall|i: int| 0 <= i < stem.len() ==> #[trigger] stem[i] != 0x2f,
        forall|i: int| 0 <= i < ext.len() ==> #[trigger] ext[i] != 0x2f && ext[i] != 0x2e,
        stem.push(0x2e) + ext != seq![0x2eu8, 0x2eu8],
    ensures
        ({
            let socket = front.push(0x2f) + (stem.push(0x2e) + ext);
            let dir = thumbnail_dir_in(runtime_dir, socket);
            &&& dir is Some <==> runtime_dir is Some && runtime_dir->0.len() > 0
            &&& dir is Some ==> dir->0 == joined(
                joined(runtime_dir->0, utf8::encode_utf8("osnip"@)),
                stem + utf8::encode_utf8("-thumbs"@),
            )
        }),
{
    let name = stem.push(0x2e) + ext;
    assert(name.len() >= 2);
    assert forall|i: int| 0 <= i < name.len() implies #[trigger] name[i] != 0x2f by {
        if i < stem.len() {
            assert(name[i] == stem[i]);
        } else if i > stem.len() {
            assert(name[i] == ext[i - stem.len() - 1]);
        }
    }
    the_name_stands_behind_the_last_slash(front, name);
    names_are_cut_at_their_last_dot(stem, ext);
}

/// A socket without a name that is UTF-8 counts as `osnip`.
pub proof fn sockets_without_a_name_count_as_osnip(socket: Seq<u8>)
    ensures
        match name_of(socket) {
            None => socket_stem(socket) == utf8::encode_utf8("osnip"@),
            Some(name) => if utf8::valid_utf8(stem_of(name)) {
                socket_stem(socket) == stem_of(name)
            } else {
                socket_stem(socket) == utf8::encode_utf8("osnip"@)
            },
        },
{
}

/// The daemon listens where the environment says, or else on the default socket.
pub proof fn a_named_socket_comes_first(named: Option<Seq<u8>>, runtime_dir: Option<Seq<u8>>)
    ensures
        named is Some ==> daemon_socket_in(named, runtime_dir) == named,
        named is None ==> daemon_socket_in(named, runtime_dir) == socket_path_in(runtime_dir),
{
}

} // verus!
