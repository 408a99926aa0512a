//! Where the program keeps its files and its socket. Paths are byte strings,
//! as the system keeps them.

use vstd::prelude::*;
use vstd::string::*;

verus! {

/// A file name appended to a directory. A separator goes between the two unless
/// the directory is empty or already ends with one.
pub open spec fn joined(dir: Seq<u8>, name: Seq<u8>) -> Seq<u8> {
    if dir.len() == 0 || dir.last() == 0x2F {
        dir + name
    } else {
        dir.push(0x2F) + name
    }
}

/// Appends a relative file name to a directory.
pub fn join(dir: &[u8], name: &[u8]) -> (r: Vec<u8>)
    ensures
        r@ == joined(dir@, name@),
{
    let mut out: Vec<u8> = vstd::slice::slice_to_vec(dir);
    if dir.len() > 0 && dir[dir.len() - 1] != 0x2F {
        out.push(0x2F);
    }
    append_bytes(&mut out, name);
    out
}

fn append_bytes(out: &mut Vec<u8>, tail: &[u8])
    ensures
        final(out)@ == old(out)@ + tail@,
{
    let ghost start = out@;
    let mut i: usize = 0;
    assert(start + tail@.take(0) =~= start);
    while i < tail.len()
        invariant
            i <= tail@.len(),
            out@ == start + tail@.take(i as int),
        decreases tail@.len() - i,
    {
        out.push(tail[i]);
        assert(tail@.take(i + 1) =~= tail@.take(i as int).push(tail@[i as int]));
        assert(start + tail@.take(i + 1) =~= (start + tail@.take(i as int)).push(tail@[i as int]));
        i = i + 1;
    }
    assert(tail@.take(i as int) =~= tail@);
}

/// The cache directory: the one the environment names, else `.cache` in the
/// home directory, else `.cache` in the current one.
pub open spec fn cache_dir(xdg_cache_home: Option<Seq<u8>>, home: Option<Seq<u8>>) -> Seq<u8> {
    match xdg_cache_home {
        Some(dir) => dir,
        None => joined(
            match home {
                Some(dir) => dir,
                None => ".".spec_bytes(),
            },
            ".cache".spec_bytes(),
        ),
    }
}

/// What a byte string holds, if there is one.
pub open spec fn seen(b: Option<&[u8]>) -> Option<Seq<u8>> {
    match b {
        Some(s) => Some(s@),
        None => None,
    }
}

/// Finds the cache directory from `XDG_CACHE_HOME` and `HOME`.
pub fn dirs_cache(xdg_cache_home: Option<&[u8]>, home: Option<&[u8]>) -> (r: Vec<u8>)
    ensures
        r@ == cache_dir(seen(xdg_cache_home), seen(home)),
{
    match xdg_cache_home {
        Some(dir) => vstd::slice::slice_to_vec(dir),
        None => match home {
            Some(dir) => join(dir, ".cache".as_bytes()),
            None => join(".".as_bytes(), ".cache".as_bytes()),
        },
    }
}

/// Where the screen cast's restore token is kept between runs.
pub fn token_path(xdg_cache_home: Option<&[u8]>, home: Option<&[u8]>) -> (r: Vec<u8>)
    ensures
        r@ == joined(
            cache_dir(seen(xdg_cache_home), seen(home)),
            "glint-screencast-token".spec_bytes(),
        ),
{
    let dir: Vec<u8> = dirs_cache(xdg_cache_home, home);
    join(dir.as_slice(), "glint-screencast-token".as_bytes())
}

/// The socket between daemon and trigger: in the runtime directory, else under
/// the user's name in the directory for temporary files.
pub open spec fn socket_at(
    runtime_dir: Option<Seq<u8>>,
    user: Option<Seq<u8>>,
    temp_dir: Seq<u8>,
) -> Seq<u8> {
    match runtime_dir {
        Some(dir) => joined(dir, "glint-screenshot.sock".spec_bytes()),
        None => joined(
            temp_dir,
            "glint-screenshot-".spec_bytes() + (match user {
                Some(u) => u,
                None => "anon".spec_bytes(),
            }) + ".sock".spec_bytes(),
        ),
    }
}

/// Finds the socket from `XDG_RUNTIME_DIR`, `USER` and the directory for
/// temporary files.
pub fn socket_path(runtime_dir: Option<&[u8]>, user: Option<&[u8]>, temp_dir: &[u8]) -> (r: Vec<u8>)
    ensures
        r@ == socket_at(seen(runtime_dir), seen(user), temp_dir@),
{
    match runtime_dir {
        Some(dir) => join(dir, "glint-screenshot.sock".as_bytes()),
        None => {
            let mut name: Vec<u8> = Vec::new();
            append_bytes(&mut name, "glint-screenshot-".as_bytes());
            match user {
                Some(u) => {
                    append_bytes(&mut name, u);
                },
                None => {
                    append_bytes(&mut name, "anon".as_bytes());
                },
            }
            append_bytes(&mut name, ".sock".as_bytes());
            assert(name@ =~= "glint-screenshot-".spec_bytes() + (match seen(user) {
                Some(u) => u,
                None => "anon".spec_bytes(),
            }) + ".sock".spec_bytes());
            join(temp_dir, name.as_slice())
        },
    }
}

/// The folder that a save dialog opens in: the one for pictures if it is there,
/// else the home directory if it is known.
pub open spec fn preferred_folder(
    pictures: Option<Seq<u8>>,
    pictures_exist: bool,
    home: Seq<u8>,
) -> Option<Seq<u8>> {
    if pictures is Some && pictures_exist {
        pictures
    } else if home.len() > 0 {
        Some(home)
    } else {
        None
    }
}

/// Chooses the folder that a save dialog opens in.
pub fn default_save_folder(pictures: Option<&[u8]>, pictures_exist: bool, home: &[u8]) -> (r: Option<
    Vec<u8>,
>)
    ensures
        r is None <==> preferred_folder(seen(pictures), pictures_exist, home@) is None,
        r matches Some(dir) ==> Some(dir@) == preferred_folder(
            seen(pictures),
            pictures_exist,
            home@,
        ),
{
    if let Some(dir) = pictures {
        if pictures_exist {
            return Some(vstd::slice::slice_to_vec(dir));
        }
    }
    if home.len() > 0 {
        Some(vstd::slice::slice_to_vec(home))
    } else {
        None
    }
}

/// A path without separators, and without `.` components, at its end.
pub open spec fn stripped(p: Seq<u8>) -> Seq<u8>
    decreases p.len(),
{
    if p.len() > 0 && p.last() == 0x2F {
        stripped(p.drop_last())
    } else if p.len() >= 2 && p.last() == 0x2E && p[p.len() - 2] == 0x2F {
        stripped(p.drop_last().drop_last())
    } else {
        p
    }
}

/// What follows the last separator.
pub open spec fn base_name(p: Seq<u8>) -> Seq<u8>
    decreases p.len(),
{
    if p.len() == 0 || p.last() == 0x2F {
        seq![]
    } else {
        base_name(p.drop_last()).push(p.last())
    }
}

/// The component names a file: it is none of nothing, `.` and `..`.
pub open spec fn is_file_name(name: Seq<u8>) -> bool {
    &&& name.len() > 0
    &&& !(name.len() == 1 && name[0] == 0x2E)
    &&& !(name.len() == 2 && name[0] == 0x2E && name[1] == 0x2E)
}

/// The name has an extension: a dot that is not its first character.
pub open spec fn has_extension(name: Seq<u8>) -> bool {
    exists|i: int| 0 < i < name.len() && #[trigger] name[i] == 0x2E
}

/// The path under which an image is saved: a file name without an extension gets
/// that of PNG files.
pub open spec fn png_path(p: Seq<u8>) -> Seq<u8> {
    let name = base_name(stripped(p));
    if is_file_name(name) && !has_extension(name) {
        stripped(p) + ".png".spec_bytes()
    } else {
        p
    }
}

/// The length of a path without separators and `.` components at its end.
fn stripped_len(p: &[u8]) -> (n: usize)
    ensures
        n <= p@.len(),
        stripped(p@) == p@.take(n as int),
{
    let mut n: usize = p.len();
    assert(p@.take(n as int) =~= p@);
    while n > 0 && (p[n - 1] == 0x2F || (n >= 2 && p[n - 1] == 0x2E && p[n - 2] == 0x2F))
        invariant
            n <= p@.len(),
            stripped(p@) == stripped(p@.take(n as int)),
        decreases n,
    {
        if p[n - 1] == 0x2F {
            assert(p@.take(n as int).drop_last() =~= p@.take(n - 1));
            n = n - 1;
        } else {
            assert(p@.take(n as int).drop_last().drop_last() =~= p@.take(n - 2));
            n = n - 2;
        }
    }
    n
}

/// Where the base name of `p[..n]` starts.
fn base_start(p: &[u8], n: usize) -> (s: usize)
    requires
        n <= p@.len(),
    ensures
        s <= n,
        base_name(p@.take(n as int)) == p@.subrange(s as int, n as int),
{
    let mut s: usize = n;
    let ghost whole = p@.take(n as int);
    while s > 0 && p[s - 1] != 0x2F
        invariant
            s <= n <= p@.len(),
            whole == p@.take(n as int),
            base_name(whole) == base_name(p@.take(s as int)) + p@.subrange(s as int, n as int),
        decreases s,
    {
        proof {
            let shorter = p@.take(s as int).drop_last();
            assert(shorter =~= p@.take(s - 1));
            assert(base_name(p@.take(s as int)) == base_name(shorter).push(p@[s - 1]));
            assert(base_name(shorter).push(p@[s - 1]) + p@.subrange(s as int, n as int)
                =~= base_name(shorter) + p@.subrange(s - 1, n as int));
        }
        s = s - 1;
    }
    assert(base_name(p@.take(s as int)) =~= seq![]);
    assert(base_name(whole) =~= p@.subrange(s as int, n as int));
    s
}

/// Completes the path chosen in a save dialog. An empty path is no choice.
pub fn chosen_path(p: &[u8]) -> (r: Option<Vec<u8>>)
    ensures
        r is None <==> p@.len() == 0,
        r matches Some(path) ==> path@ == png_path(p@),
{
    if p.len() == 0 {
        return None;
    }
    let n: usize = stripped_len(p);
    let s: usize = base_start(p, n);
    let ghost name = base_name(stripped(p@));
    let len: usize = n - s;
    let mut out: Vec<u8> = vstd::slice::slice_to_vec(p);
    if len == 0 || (len == 1 && p[s] == 0x2E) || (len == 2 && p[s] == 0x2E && p[s + 1] == 0x2E) {
        assert(!is_file_name(name));
        return Some(out);
    }
    assert(is_file_name(name));
    let mut i: usize = s + 1;
    while i < n
        invariant
            s < i <= n <= p@.len(),
            out@ == p@,
            name == base_name(stripped(p@)),
            name == p@.subrange(s as int, n as int),
            forall|j: int| s < j < i ==> p@[j] != 0x2E,
        decreases n - i,
    {
        if p[i] == 0x2E {
            assert(name[i - s] == 0x2E);
            return Some(out);
        }
        i = i + 1;
    }
    assert(!has_extension(name)) by {
        assert forall|k: int| 0 < k < name.len() implies #[trigger] name[k] != 0x2E by {
            assert(name[k] == p@[s + k]);
        }
    }
    out.truncate(n);
    append_bytes(&mut out, ".png".as_bytes());
    Some(out)
}

/// Completing a path once more changes nothing.
pub proof fn law_path_is_completed_once(p: Seq<u8>)
    ensures
        png_path(png_path(p)) == png_path(p),
{
    let name = base_name(stripped(p));
    if is_file_name(name) && !has_extension(name) {
        reveal_strlit(".png");
        is_ascii_spec_bytes(".png");
        let q = stripped(p) + ".png".spec_bytes();
        let s = stripped(p);
        assert(q =~= s.push(0x2E).push(0x70).push(0x6E).push(0x67));
        assert(stripped(q) == q);
        assert(q.drop_last() =~= s.push(0x2E).push(0x70).push(0x6E));
        assert(q.drop_last().drop_last() =~= s.push(0x2E).push(0x70));
        assert(q.drop_last().drop_last().drop_last() =~= s.push(0x2E));
        assert(s.push(0x2E).drop_last() =~= s);
        reveal_with_fuel(base_name, 5);
        assert(base_name(q) =~= name.push(0x2E).push(0x70).push(0x6E).push(0x67));
        assert(base_name(q)[name.len() as int] == 0x2E);
        assert(has_extension(base_name(q)));
    }
}

/// Daemon and trigger agree on the socket: where both see the same runtime
/// directory, the user and the directory for temporary files do not matter.
pub proof fn law_runtime_dir_decides(
    runtime_dir: Seq<u8>,
    user: Option<Seq<u8>>,
    temp_dir: Seq<u8>,
    user2: Option<Seq<u8>>,
    temp_dir2: Seq<u8>,
)
    ensures
        socket_at(Some(runtime_dir), user, temp_dir) == socket_at(
            Some(runtime_dir),
            user2,
            temp_dir2,
        ),
{
}

/// A joined path starts with the directory and ends with the name. Between them
/// stands one separator, unless the directory is empty or ends with one.
pub proof fn law_joined(dir: Seq<u8>, name: Seq<u8>)
    ensures
        ({
            let p = joined(dir, name);
            let n = dir.len() as int;
            let direct = n == 0 || dir[n - 1] == '/' as u8;
            &&& p.len() == n + name.len() + if direct { 0int } else { 1 }
            &&& p.take(n) == dir
            &&& p.skip(p.len() - name.len()) == name
            &&& !direct ==> p[n] == '/' as u8
        }),
{
    let p = joined(dir, name);
    assert(p.take(dir.len() as int) =~= dir);
    assert(p.skip(p.len() - name.len()) =~= name);
}

/// The cache directory is the one the environment names. Without one it lies in the
/// home directory, and without that in the current one.
pub proof fn law_cache_dir(named: Seq<u8>, home: Option<Seq<u8>>, place: Seq<u8>)
    requires
        home matches Some(dir) ==> place == dir,
        home is None ==> place == ".".spec_bytes(),
    ensures
        cache_dir(Some(named), home) == named,
        cache_dir(None, home) == joined(place, ".cache".spec_bytes()),
{
}

/// The socket lies in the runtime directory where there is one. Elsewhere it lies
/// among the temporary files, and users that differ have sockets that differ.
pub proof fn law_socket(
    runtime_dir: Seq<u8>,
    user: Seq<u8>,
    other: Seq<u8>,
    temp_dir: Seq<u8>,
    name: Option<Seq<u8>>,
)
    ensures
        socket_at(Some(runtime_dir), name, temp_dir) == joined(
            runtime_dir,
            "glint-screenshot.sock".spec_bytes(),
        ),
        socket_at(None, Some(user), temp_dir) == joined(
            temp_dir,
            "glint-screenshot-".spec_bytes() + user + ".sock".spec_bytes(),
        ),
        socket_at(None, None, temp_dir) == socket_at(None, Some("anon".spec_bytes()), temp_dir),
        socket_at(None, Some(user), temp_dir) == socket_at(None, Some(other), temp_dir) ==> user
            == other,
{
    let a = "glint-screenshot-".spec_bytes();
    let z = ".sock".spec_bytes();
    let p = socket_at(None, Some(user), temp_dir);
    let q = socket_at(None, Some(other), temp_dir);
    law_joined(temp_dir, a + user + z);
    law_joined(temp_dir, a + other + z);
    if p == q {
        let one = a + user + z;
        let two = a + other + z;
        assert(one.len() == two.len());
        assert(one == two);
        assert(user =~= one.subrange(a.len() as int, one.len() - z.len()));
        assert(other =~= two.subrange(a.len() as int, two.len() - z.len()));
    }
}

/// A save dialog opens in the folder for pictures if that is known and there, else
/// in the home directory if that is known.
pub proof fn law_save_folder(pictures: Seq<u8>, known: Option<Seq<u8>>, home: Seq<u8>)
    ensures
        preferred_folder(Some(pictures), true, home) == Some(pictures),
        home.len() > 0 ==> preferred_folder(None, true, home) == Some(home),
        home.len() > 0 ==> preferred_folder(known, false, home) == Some(home),
        home.len() == 0 ==> preferred_folder(None, true, home) is None,
        home.len() == 0 ==> preferred_folder(known, false, home) is None,
{
}

/// What is stripped from a path's end are separators and single dots behind a
/// separator, until neither is left.
pub proof fn law_stripped(p: Seq<u8>)
    ensures
        stripped(p).len() <= p.len(),
        stripped(p) == p.take(stripped(p).len() as int),
        forall|i: int|
            stripped(p).len() <= i < p.len() ==> #[trigger] p[i] == '/' as u8 || p[i] == '.' as u8
                && i > 0 && p[i - 1] == '/' as u8,
        ({
            let s = stripped(p);
            let n = s.len() as int;
            &&& n > 0 ==> s[n - 1] != '/' as u8
            &&& n > 1 ==> !(s[n - 1] == '.' as u8 && s[n - 2] == '/' as u8)
        }),
        stripped(p).len() < p.len() ==> p[stripped(p).len() as int] == '/' as u8,
    decreases p.len(),
{
    if p.len() > 0 && p.last() == 0x2F {
        let q = p.drop_last();
        law_stripped(q);
        assert(stripped(p) =~= p.take(stripped(p).len() as int));
        assert forall|i: int| stripped(p).len() <= i < p.len() implies #[trigger] p[i] == '/' as u8
            || p[i] == '.' as u8 && i > 0 && p[i - 1] == '/' as u8 by {
            if i < q.len() {
                assert(q[i] == p[i]);
                assert(i > 0 ==> q[i - 1] == p[i - 1]);
            }
        }
        if stripped(p).len() < q.len() {
            assert(q[stripped(p).len() as int] == p[stripped(p).len() as int]);
        }
    } else if p.len() >= 2 && p.last() == 0x2E && p[p.len() - 2] == 0x2F {
        let q = p.drop_last().drop_last();
        law_stripped(q);
        assert(stripped(p) =~= p.take(stripped(p).len() as int));
        assert forall|i: int| stripped(p).len() <= i < p.len() implies #[trigger] p[i] == '/' as u8
            || p[i] == '.' as u8 && i > 0 && p[i - 1] == '/' as u8 by {
            if i < q.len() {
                assert(q[i] == p[i]);
                assert(i > 0 ==> q[i - 1] == p[i - 1]);
            }
        }
        if stripped(p).len() < q.len() {
            assert(q[stripped(p).len() as int] == p[stripped(p).len() as int]);
        }
    } else {
        assert(p.take(p.len() as int) =~= p);
    }
}

/// The base name is what a path ends with, has no separator in it, and reaches back
/// to the last separator or to the path's start.
pub proof fn law_base_name(p: Seq<u8>)
    ensures
        ({
            let name = base_name(p);
            let k = p.len() - name.len();
            &&& k >= 0
            &&& p.skip(k) == name
            &&& forall|i: int| 0 <= i < name.len() ==> #[trigger] name[i] != '/' as u8
            &&& k > 0 ==> p[k - 1] == '/' as u8
        }),
    decreases p.len(),
{
    if p.len() == 0 || p.last() == 0x2F {
        assert(p.skip(p.len() as int) =~= seq![]);
    } else {
        let q = p.drop_last();
        law_base_name(q);
        let k = p.len() - base_name(p).len();
        assert(q.skip(k) == base_name(q));
        assert(p.skip(k) =~= base_name(q).push(p.last()));
        if k > 0 {
            assert(q[k - 1] == p[k - 1]);
        }
    }
}

proof fn lemma_base_name_of(dir: Seq<u8>, name: Seq<u8>)
    requires
        dir.len() == 0 || dir.last() == 0x2F,
        forall|i: int| 0 <= i < name.len() ==> #[trigger] name[i] != 0x2F,
    ensures
        base_name(dir + name) == name,
    decreases name.len(),
{
    if name.len() == 0 {
        assert(dir + name =~= dir);
        assert(base_name(dir) =~= name);
    } else {
        let shorter = name.drop_last();
        lemma_base_name_of(dir, shorter);
        assert((dir + name).drop_last() =~= dir + shorter);
        assert((dir + name).last() == name.last());
        assert(name[name.len() - 1] != 0x2F);
        assert(shorter.push(name.last()) =~= name);
    }
}

/// A file name without a dot, or with one at its start only, gets the extension of
/// PNG files. Any other file name stays as it is, and so does the folder.
pub proof fn law_extension_is_added(dir: Seq<u8>, name: Seq<u8>)
    requires
        dir.len() == 0 || dir[dir.len() - 1] == '/' as u8,
        name.len() > 0,
        name.len() == 1 ==> name[0] != '.' as u8,
        name.len() == 2 ==> !(name[0] == '.' as u8 && name[1] == '.' as u8),
        forall|i: int| 0 <= i < name.len() ==> #[trigger] name[i] != '/' as u8,
    ensures
        (forall|i: int| 0 < i < name.len() ==> #[trigger] name[i] != '.' as u8) ==> png_path(
            dir + name,
        ) == dir + name + ".png".spec_bytes(),
        (exists|i: int| 0 < i < name.len() && #[trigger] name[i] == '.' as u8) ==> png_path(
            dir + name,
        ) == dir + name,
{
    let p = dir + name;
    let n = p.len() as int;
    assert(p.last() == name.last());
    assert(name[name.len() - 1] != 0x2F);
    if name.len() >= 2 {
        assert(p[n - 2] == name[name.len() - 2]);
        assert(name[name.len() - 2] != 0x2F);
    }
    assert(stripped(p) == p);
    lemma_base_name_of(dir, name);
}

/// A separator at the end of a path does not matter to where an image is saved, if
/// the path gets an extension.
pub proof fn law_trailing_separator(p: Seq<u8>)
    ensures
        stripped(p.push('/' as u8)) == stripped(p),
        png_path(p.push('/' as u8)) == png_path(p) || png_path(p) == p && png_path(
            p.push('/' as u8),
        ) == p.push('/' as u8),
{
    let q = p.push('/' as u8);
    assert(q.drop_last() =~= p);
    assert(q.last() == 0x2F);
}

proof fn lemma_only_separators(p: Seq<u8>)
    requires
        forall|i: int| 0 <= i < p.len() ==> #[trigger] p[i] == 0x2F,
    ensures
        stripped(p).len() == 0,
    decreases p.len(),
{
    if p.len() > 0 {
        assert(p[p.len() - 1] == 0x2F);
        lemma_only_separators(p.drop_last());
    }
}

/// Folders are not files: a path to the folder above, and one of separators alone,
/// stay as they are.
pub proof fn law_folders_stay(dir: Seq<u8>)
    ensures
        dir.len() == 0 || dir[dir.len() - 1] == '/' as u8 ==> png_path(
            dir + seq!['.' as u8, '.' as u8],
        ) == dir + seq!['.' as u8, '.' as u8],
        (forall|i: int| 0 <= i < dir.len() ==> #[trigger] dir[i] == '/' as u8) ==> png_path(dir)
            == dir,
{
    if dir.len() == 0 || dir[dir.len() - 1] == '/' as u8 {
        let up = seq!['.' as u8, '.' as u8];
        let p = dir + up;
        assert(p.last() == 0x2E);
        assert(p[p.len() - 2] == 0x2E);
        assert(stripped(p) == p);
        lemma_base_name_of(dir, up);
    }
    if forall|i: int| 0 <= i < dir.len() ==> #[trigger] dir[i] == '/' as u8 {
        lemma_only_separators(dir);
    }
}

/// A byte string that is there is seen as it is, even if it is empty.
pub proof fn law_seen(s: &[u8])
    ensures
        seen(Some(s)) == Some(s@),
        seen(None) is None,
{
}

} // verus!
