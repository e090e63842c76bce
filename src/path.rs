use vstd::prelude::*;
use vstd::string::*;

verus! {

/// `base` with `p` pushed onto it, as a Unix path buffer does it: an
/// absolute `p` replaces `base`; otherwise a separator joins the two unless
/// `base` is empty or already ends in one.
pub open spec fn push_path(base: Seq<char>, p: Seq<char>) -> Seq<char> {
    if p.len() > 0 && p[0] == '/' {
        p
    } else if base.len() == 0 {
        p
    } else if base.last() == '/' {
        base + p
    } else {
        base + seq!['/'] + p
    }
}

/// Whether the canonical path `path` is the canonical directory `root` or
/// lies below it, comparing whole components.
pub open spec fn within(root: Seq<char>, path: Seq<char>) -> bool {
    path == root || (root.len() > 0 && root.last() == '/' && root.is_prefix_of(path)) || (root
        + seq!['/']).is_prefix_of(path)
}

/// A canonical path that lies within the root starts with the root: no
/// path that the sandbox lets through leaves it.
pub proof fn lemma_within_has_root_prefix(root: Seq<char>, path: Seq<char>)
    requires
        within(root, path),
    ensures
        root.is_prefix_of(path),
{
    if (root + seq!['/']).is_prefix_of(path) && path != root {
        assert forall|i: int| 0 <= i < root.len() implies root[i] == path[i] by {
            assert((root + seq!['/'])[i] == root[i]);
        }
    }
}

/// How a canonical path inside `root` is shown to the user: the part after
/// `root`, or `/` for `root` itself.
pub open spec fn shown_from(root: Seq<char>, path: Seq<char>) -> Seq<char> {
    if root.is_prefix_of(path) {
        if path.len() == root.len() {
            seq!['/']
        } else {
            path.subrange(root.len() as int, path.len() as int)
        }
    } else {
        path
    }
}

/// `path` with a leading `cwd` written as `.`.
pub open spec fn relative_to(cwd: Seq<char>, path: Seq<char>) -> Seq<char> {
    if cwd.is_prefix_of(path) {
        seq!['.'] + path.subrange(cwd.len() as int, path.len() as int)
    } else {
        path
    }
}

/// Whether `pre` starts `s`.
pub fn starts_with(s: &str, pre: &str) -> (r: bool)
    ensures
        r == pre@.is_prefix_of(s@),
{
    let n = s.unicode_len();
    let m = pre.unicode_len();
    if m > n {
        return false;
    }
    let mut i: usize = 0;
    while i < m
        invariant
            n == s@.len(),
            m == pre@.len(),
            m <= n,
            0 <= i <= m,
            forall|j: int| 0 <= j < i ==> s@[j] == pre@[j],
        decreases m - i,
    {
        if s.get_char(i) != pre.get_char(i) {
            return false;
        }
        i = i + 1;
    }
    true
}

/// Whether two texts are equal.
pub fn same_text(a: &str, b: &str) -> (r: bool)
    ensures
        r == (a@ == b@),
{
    let n = a.unicode_len();
    if n != b.unicode_len() {
        return false;
    }
    let r = starts_with(a, b);
    proof {
        if r {
            assert(a@ =~= b@);
        }
    }
    r
}

/// Pushes `p` onto `base`, as `push_path` says.
pub fn join_path(base: &str, p: &str) -> (r: String)
    ensures
        r@ == push_path(base@, p@),
{
    let sep = "/";
    proof {
        reveal_strlit("/");
    }
    if p.unicode_len() > 0 && p.get_char(0) == '/' {
        return String::from_str(p);
    }
    let n = base.unicode_len();
    if n == 0 {
        return String::from_str(p);
    }
    if base.get_char(n - 1) == '/' {
        return String::from_str(base).concat(p);
    }
    let r = String::from_str(base).concat(sep).concat(p);
    assert(r@ =~= base@ + seq!['/'] + p@);
    r
}

/// Whether the canonical `path` is `root` or below it.
pub fn is_within(root: &str, path: &str) -> (r: bool)
    ensures
        r == within(root@, path@),
{
    if same_text(path, root) {
        return true;
    }
    let n = root.unicode_len();
    if n > 0 && root.get_char(n - 1) == '/' && starts_with(path, root) {
        return true;
    }
    let sep = "/";
    proof {
        reveal_strlit("/");
    }
    let with_sep = String::from_str(root).concat(sep);
    assert(with_sep@ =~= root@ + seq!['/']);
    starts_with(path, with_sep.as_str())
}

/// The form of `path` that the user sees, as `shown_from` says.
pub fn show_from(root: &str, path: &str) -> (r: String)
    ensures
        r@ == shown_from(root@, path@),
{
    if starts_with(path, root) {
        let n = root.unicode_len();
        let m = path.unicode_len();
        if n == m {
            let top = "/";
            proof {
                reveal_strlit("/");
            }
            let r = String::from_str(top);
            assert(r@ =~= seq!['/']);
            return r;
        }
        return String::from_str(path.substring_char(n, m));
    }
    String::from_str(path)
}

/// Writes the leading current directory `cwd` of `path` as `.`.
pub fn clear_path(path: &str, cwd: &str) -> (r: String)
    ensures
        r@ == relative_to(cwd@, path@),
{
    if starts_with(path, cwd) {
        let n = cwd.unicode_len();
        let m = path.unicode_len();
        let dot = ".";
        proof {
            reveal_strlit(".");
        }
        let r = String::from_str(dot).concat(path.substring_char(n, m));
        assert(r@ =~= seq!['.'] + path@.subrange(n as int, m as int));
        return r;
    }
    String::from_str(path)
}

} // verus!

verus! {

/// Where the last `/` of `s` is, or -1.
pub open spec fn last_slash(s: Seq<char>) -> int
    decreases s.len(),
{
    if s.len() == 0 {
        -1
    } else if s.last() == '/' {
        s.len() - 1
    } else {
        last_slash(s.drop_last())
    }
}

/// The last component of `p` and the path of its directory (`./` for the
/// top), where that component names an entry: not empty, `.` or `..`.
pub open spec fn split_child(p: Seq<char>) -> Option<(Seq<char>, Seq<char>)> {
    let i = last_slash(p);
    let child = p.subrange(i + 1, p.len() as int);
    if child.len() == 0 || child == seq!['.'] || child == seq!['.', '.'] {
        None
    } else if i == 0 {
        Some((seq!['.', '/'], child))
    } else if i < 0 {
        Some((Seq::empty(), child))
    } else {
        Some((p.subrange(0, i), child))
    }
}

/// Nothing after the last `/` is a `/`.
pub proof fn lemma_last_slash(s: Seq<char>)
    ensures
        -1 <= last_slash(s) < s.len(),
        forall|j: int| last_slash(s) < j < s.len() ==> s[j] != '/',
    decreases s.len(),
{
    if s.len() > 0 && s.last() != '/' {
        lemma_last_slash(s.drop_last());
        assert forall|j: int| last_slash(s) < j < s.len() implies s[j] != '/' by {
            if j < s.len() - 1 {
                assert(s.drop_last()[j] == s[j]);
            }
        }
    }
}

/// The entry that `split_child` finds does not start with `/`, so that
/// pushing it onto a directory stays below that directory.
pub proof fn lemma_child_is_relative(p: Seq<char>)
    requires
        split_child(p) is Some,
    ensures
        split_child(p)->Some_0.1.len() > 0,
        split_child(p)->Some_0.1[0] != '/',
{
    lemma_last_slash(p);
    let i = last_slash(p);
    assert(split_child(p)->Some_0.1[0] == p[i + 1]);
}

/// Pushing a relative entry onto a path below `root` stays below `root`.
pub proof fn lemma_push_keeps_prefix(root: Seq<char>, base: Seq<char>, child: Seq<char>)
    requires
        root.is_prefix_of(base),
        child.len() > 0,
        child[0] != '/',
    ensures
        root.is_prefix_of(push_path(base, child)),
{
    let r = push_path(base, child);
    if base.len() > 0 {
        assert forall|i: int| 0 <= i < root.len() implies root[i] == r[i] by {
            assert(r[i] == base[i]);
        }
    }
}

/// The sandbox: a canonical target that `is_within` accepts, and any entry
/// of a request pushed onto it, start with the canonical root, so no path
/// that a command hands to the disk leaves the user's root.
pub proof fn lemma_sandbox_paths(root: Seq<char>, target: Seq<char>, request: Seq<char>)
    requires
        within(root, target),
    ensures
        root.is_prefix_of(target),
        split_child(request) matches Some((_, child)) ==> root.is_prefix_of(push_path(target, child)),
{
    lemma_within_has_root_prefix(root, target);
    if split_child(request) is Some {
        lemma_child_is_relative(request);
        lemma_push_keeps_prefix(root, target, split_child(request)->Some_0.1);
    }
}

/// Splits `p` into its directory and its last component, as `split_child` says.
pub fn parent_and_child(p: &str) -> (r: Option<(String, String)>)
    ensures
        match r {
            Some((parent, child)) => split_child(p@) == Some((parent@, child@)),
            None => split_child(p@) is None,
        },
{
    let n = p.unicode_len();
    let mut i: usize = n;
    assert(p@.subrange(0, n as int) =~= p@);
    while i > 0 && p.get_char(i - 1) != '/'
        invariant
            n == p@.len(),
            0 <= i <= n,
            last_slash(p@.subrange(0, i as int)) == last_slash(p@),
        decreases i,
    {
        proof {
            assert(p@.subrange(0, i as int).drop_last() =~= p@.subrange(0, i - 1));
        }
        i = i - 1;
    }
    proof {
        if i > 0 {
            assert(p@.subrange(0, i as int).last() == '/');
        }
        assert(last_slash(p@.subrange(0, i as int)) == i - 1);
        assert(last_slash(p@) == i - 1);
    }
    let child = p.substring_char(i, n);
    let m = n - i;
    if m == 0 {
        return None;
    }
    if m == 1 && child.get_char(0) == '.' {
        assert(child@ =~= seq!['.']);
        return None;
    }
    if m == 2 && child.get_char(0) == '.' && child.get_char(1) == '.' {
        assert(child@ =~= seq!['.', '.']);
        return None;
    }
    proof {
        if child@ == seq!['.'] {
            assert(child@[0] == '.');
        }
        if child@ == seq!['.', '.'] {
            assert(child@[0] == '.' && child@[1] == '.');
        }
    }
    let child = String::from_str(child);
    if i == 1 {
        let top = "./";
        proof {
            reveal_strlit("./");
        }
        let parent = String::from_str(top);
        assert(parent@ =~= seq!['.', '/']);
        return Some((parent, child));
    }
    if i == 0 {
        let empty = "";
        proof {
            reveal_strlit("");
        }
        let parent = String::from_str(empty);
        assert(parent@ =~= Seq::<char>::empty());
        return Some((parent, child));
    }
    let parent = String::from_str(p.substring_char(0, i - 1));
    Some((parent, child))
}

} // verus!

verus! {

/// A directory listing: each name followed by CRLF.
pub open spec fn listing_of(names: Seq<Seq<char>>) -> Seq<u8>
    decreases names.len(),
{
    if names.len() == 0 {
        Seq::empty()
    } else {
        listing_of(names.drop_last()) + vstd::utf8::encode_utf8(names.last()) + seq![13u8, 10u8]
    }
}

/// The bytes that `LIST` sends for the entries `names`.
pub fn listing(names: &Vec<String>) -> (r: Vec<u8>)
    ensures
        r@ == listing_of(names@.map_values(|s: String| s@)),
{
    let mut out: Vec<u8> = Vec::new();
    let mut i: usize = 0;
    while i < names.len()
        invariant
            0 <= i <= names@.len(),
            out@ == listing_of(names@.subrange(0, i as int).map_values(|s: String| s@)),
        decreases names@.len() - i,
    {
        crate::response::push_bytes(&mut out, names[i].as_str().as_bytes());
        out.push(13u8);
        out.push(10u8);
        proof {
            let a = names@.subrange(0, i + 1).map_values(|s: String| s@);
            assert(a.drop_last() =~= names@.subrange(0, i as int).map_values(|s: String| s@));
            assert(a.last() == names@[i as int]@);
        }
        i = i + 1;
    }
    assert(names@.subrange(0, names@.len() as int) =~= names@);
    out
}

} // verus!
