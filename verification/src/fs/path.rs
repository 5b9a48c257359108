//! Path resolution: absolute and relative paths, `.` and `..`
//! components, parents, file names and joining.

use vstd::prelude::*;
use vstd::string::*;

verus! {

/// The components of a path: the maximal runs of characters other than
/// `/`, in order (what splitting at `/` and dropping empty pieces gives),
/// with `acc` already found and `cur` the run in progress.
pub open spec fn spec_split_acc(s: Seq<char>, acc: Seq<Seq<char>>, cur: Seq<char>) -> Seq<Seq<char>>
    decreases s.len(),
{
    if s.len() == 0 {
        if cur.len() == 0 {
            acc
        } else {
            acc.push(cur)
        }
    } else if s[0] == '/' {
        spec_split_acc(s.drop_first(), if cur.len() == 0 { acc } else { acc.push(cur) }, Seq::empty())
    } else {
        spec_split_acc(s.drop_first(), acc, cur.push(s[0]))
    }
}

/// The components of a path.
pub open spec fn spec_components(s: Seq<char>) -> Seq<Seq<char>> {
    spec_split_acc(s, Seq::empty(), Seq::empty())
}

/// Components after applying `.` (stay) and `..` (go up, not above the root).
pub open spec fn spec_resolve_dots(c: Seq<Seq<char>>) -> Seq<Seq<char>>
    decreases c.len(),
{
    if c.len() == 0 {
        Seq::empty()
    } else {
        let prev = spec_resolve_dots(c.drop_last());
        let x = c.last();
        if x == seq!['.'] {
            prev
        } else if x == seq!['.', '.'] {
            if prev.len() > 0 {
                prev.drop_last()
            } else {
                prev
            }
        } else {
            prev.push(x)
        }
    }
}

/// The absolute path made of the components: `/` then the components
/// separated by `/`.
pub open spec fn spec_join_abs(c: Seq<Seq<char>>) -> Seq<char>
    decreases c.len(),
{
    if c.len() == 0 {
        seq!['/']
    } else if c.len() == 1 {
        seq!['/'] + c[0]
    } else {
        spec_join_abs(c.drop_last()) + seq!['/'] + c.last()
    }
}

/// The normal form of an absolute path.
pub open spec fn spec_normalize(s: Seq<char>) -> Seq<char> {
    spec_join_abs(spec_resolve_dots(spec_components(s)))
}

/// The path without its trailing `/` characters.
pub open spec fn spec_trim_end(s: Seq<char>) -> Seq<char>
    decreases s.len(),
{
    if s.len() > 0 && s.last() == '/' {
        spec_trim_end(s.drop_last())
    } else {
        s
    }
}

/// Position of the last `/` in `s`, if any.
pub open spec fn spec_rfind_slash(s: Seq<char>) -> Option<int>
    decreases s.len(),
{
    if s.len() == 0 {
        None
    } else if s.last() == '/' {
        Some(s.len() - 1)
    } else {
        spec_rfind_slash(s.drop_last())
    }
}

/// The absolute path `path` stands for, seen from `cwd`.
pub open spec fn spec_absolute(cwd: Seq<char>, path: Seq<char>) -> Seq<char> {
    if path.len() > 0 && path[0] == '/' {
        path
    } else if cwd.len() > 0 && cwd.last() == '/' {
        cwd + path
    } else {
        cwd + seq!['/'] + path
    }
}

/// The characters of a string.
pub(crate) fn chars_of(s: &str) -> (r: Vec<char>)
    ensures
        r@ == s@,
{
    let n = s.unicode_len();
    let mut r: Vec<char> = Vec::new();
    let mut i: usize = 0;
    while i < n
        invariant
            n == s@.len(),
            0 <= i <= n,
            r@ == s@.take(i as int),
        decreases n - i,
    {
        r.push(s.get_char(i));
        assert(r@ =~= s@.take(i as int + 1));
        i = i + 1;
    }
    assert(s@.take(n as int) =~= s@);
    r
}

/// The string made of `chars`, in order.
///
/// Collects the borrowed characters with `FromIterator<&char> for String`,
/// which std documents as appending each character in turn.
#[verifier::external_body]
pub(crate) fn string_from_chars(chars: &Vec<char>) -> (r: String)
    ensures
        r@ == chars@,
{
    chars.iter().collect()
}

fn is_dot(c: &Vec<char>) -> (r: bool)
    ensures
        r == (c@ == seq!['.']),
{
    let r = c.len() == 1 && c[0] == '.';
    proof {
        if r {
            assert(c@ =~= seq!['.']);
        }
    }
    r
}

fn is_dot_dot(c: &Vec<char>) -> (r: bool)
    ensures
        r == (c@ == seq!['.', '.']),
{
    let r = c.len() == 2 && c[0] == '.' && c[1] == '.';
    proof {
        if r {
            assert(c@ =~= seq!['.', '.']);
        }
    }
    r
}

/// The views of a vector of components.
pub open spec fn spec_views(v: Seq<Vec<char>>) -> Seq<Seq<char>> {
    v.map_values(|c: Vec<char>| c@)
}

/// Normalizes an absolute path given by its characters.
fn normalize_chars(s: &Vec<char>) -> (r: Vec<char>)
    requires
        s@.len() > 0 && s@[0] == '/',
    ensures
        r@ == spec_normalize(s@),
{
    // Split into components.
    let mut comps: Vec<Vec<char>> = Vec::new();
    let mut cur: Vec<char> = Vec::new();
    let mut i: usize = 0;
    assert(s@.skip(0) =~= s@);
    assert(spec_views(comps@) =~= Seq::<Seq<char>>::empty());
    assert(cur@ =~= Seq::<char>::empty());
    while i < s.len()
        invariant
            0 <= i <= s@.len(),
            spec_components(s@) == spec_split_acc(s@.skip(i as int), spec_views(comps@), cur@),
        decreases s@.len() - i,
    {
        let c = s[i];
        assert(s@.skip(i as int).drop_first() =~= s@.skip(i as int + 1));
        if c == '/' {
            if cur.len() > 0 {
                let ghost before = spec_views(comps@);
                comps.push(cur);
                assert(spec_views(comps@) =~= before.push(cur@));
            }
            cur = Vec::new();
        } else {
            cur.push(c);
        }
        i = i + 1;
    }
    if cur.len() > 0 {
        let ghost before = spec_views(comps@);
        comps.push(cur);
        assert(spec_views(comps@) =~= before.push(cur@));
    }
    assert(s@.skip(s@.len() as int) =~= Seq::<char>::empty());
    let ghost cs = spec_views(comps@);
    assert(cs == spec_components(s@));
    // Apply `.` and `..`.
    let mut stack: Vec<Vec<char>> = Vec::new();
    let mut j: usize = 0;
    while j < comps.len()
        invariant
            cs == spec_views(comps@),
            0 <= j <= comps@.len(),
            spec_views(stack@) == spec_resolve_dots(cs.take(j as int)),
        decreases comps@.len() - j,
    {
        let c = comps[j].clone();
        assert(cs.take(j as int + 1).drop_last() =~= cs.take(j as int));
        assert(cs.take(j as int + 1).last() == cs[j as int]);
        assert(c@ == cs[j as int]);
        if is_dot(&c) {
        } else if is_dot_dot(&c) {
            if stack.len() > 0 {
                let ghost before = spec_views(stack@);
                stack.pop();
                assert(spec_views(stack@) =~= before.drop_last());
            }
        } else {
            let ghost before = spec_views(stack@);
            stack.push(c);
            assert(spec_views(stack@) =~= before.push(c@));
        }
        j = j + 1;
    }
    assert(cs.take(comps@.len() as int) =~= cs);
    let ghost rs = spec_views(stack@);
    // Join.
    let mut res: Vec<char> = Vec::new();
    res.push('/');
    let mut k: usize = 0;
    while k < stack.len()
        invariant
            rs == spec_views(stack@),
            0 <= k <= stack@.len(),
            res@ == spec_join_abs(rs.take(k as int)),
        decreases stack@.len() - k,
    {
        let ghost before = res@;
        if k > 0 {
            res.push('/');
        }
        let comp = &stack[k];
        let ghost mid = res@;
        let mut m: usize = 0;
        while m < comp.len()
            invariant
                0 <= m <= comp@.len(),
                res@ == mid + comp@.take(m as int),
            decreases comp@.len() - m,
        {
            res.push(comp[m]);
            assert(res@ =~= mid + comp@.take(m as int + 1));
            m = m + 1;
        }
        assert(comp@.take(comp@.len() as int) =~= comp@);
        assert(rs.take(k as int + 1).drop_last() =~= rs.take(k as int));
        assert(rs[k as int] == comp@);
        if k == 0 {
            assert(res@ =~= seq!['/'] + rs.take(1)[0]);
        } else {
            assert(res@ =~= spec_join_abs(rs.take(k as int)) + seq!['/'] + rs.take(k as int + 1).last());
        }
        k = k + 1;
    }
    assert(rs.take(stack@.len() as int) =~= rs);
    res
}

/// Resolves paths against a current working directory.
pub struct PathResolver {
    cwd: String,
}

impl PathResolver {
    /// The current working directory.
    pub closed spec fn spec_cwd(&self) -> Seq<char> {
        self.cwd@
    }

    /// A resolver whose working directory is the root.
    pub fn new() -> (r: Self)
        ensures
            r.spec_cwd() == seq!['/'],
    {
        let cwd = String::from_str("/");
        proof {
            reveal_strlit("/");
        }
        PathResolver { cwd }
    }

    /// A resolver with working directory `cwd`.
    pub fn with_cwd(cwd: String) -> (r: Self)
        ensures
            r.spec_cwd() == cwd@,
    {
        PathResolver { cwd }
    }

    /// The current working directory.
    pub fn cwd(&self) -> (r: &str)
        ensures
            r@ == self.spec_cwd(),
    {
        self.cwd.as_str()
    }

    /// Changes the working directory.
    pub fn set_cwd(&mut self, path: String)
        ensures
            final(self).spec_cwd() == path@,
    {
        self.cwd = path;
    }

    /// Resolves `path` to a normalized absolute path: a path starting with
    /// `/` stands for itself, any other is taken relative to the working
    /// directory. Fails on an empty path and when the combined path is not
    /// absolute.
    pub fn resolve(&self, path: &str) -> (r: Result<String, &'static str>)
        ensures
            path@.len() == 0 ==> r == Err::<String, &'static str>("Empty path"),
            path@.len() > 0 ==> ({
                let abs = spec_absolute(self.spec_cwd(), path@);
                if abs.len() > 0 && abs[0] == '/' {
                    r matches Ok(s) && s@ == spec_normalize(abs)
                } else {
                    r == Err::<String, &'static str>("Path must be absolute after resolution")
                }
            }),
    {
        let p = chars_of(path);
        if p.len() == 0 {
            return Err("Empty path");
        }
        let mut abs: Vec<char>;
        if p[0] == '/' {
            abs = p;
        } else {
            abs = chars_of(self.cwd.as_str());
            let ends_with_slash = abs.len() > 0 && abs[abs.len() - 1] == '/';
            if !ends_with_slash {
                abs.push('/');
            }
            let ghost mid = abs@;
            let mut i: usize = 0;
            while i < p.len()
                invariant
                    0 <= i <= p@.len(),
                    abs@ == mid + p@.take(i as int),
                decreases p@.len() - i,
            {
                abs.push(p[i]);
                assert(abs@ =~= mid + p@.take(i as int + 1));
                i = i + 1;
            }
            assert(p@.take(p@.len() as int) =~= p@);
        }
        assert(abs@ =~= spec_absolute(self.spec_cwd(), path@));
        if abs.len() == 0 || abs[0] != '/' {
            return Err("Path must be absolute after resolution");
        }
        let n = normalize_chars(&abs);
        Ok(string_from_chars(&n))
    }

    /// The normal form of an absolute path: `.` components dropped, each
    /// `..` removing the component before it (the root has no parent),
    /// empty components dropped. Fails when the path does not start with `/`.
    pub fn normalize(path: &str) -> (r: Result<String, &'static str>)
        ensures
            path@.len() > 0 && path@[0] == '/' ==> (r matches Ok(s) && s@ == spec_normalize(path@)),
            !(path@.len() > 0 && path@[0] == '/') ==> r == Err::<String, &'static str>(
                "Path must be absolute after resolution",
            ),
    {
        let p = chars_of(path);
        if p.len() == 0 || p[0] != '/' {
            return Err("Path must be absolute after resolution");
        }
        let n = normalize_chars(&p);
        Ok(string_from_chars(&n))
    }

    /// The parent directory of a path (trailing `/` ignored): the root
    /// for a path with one component, nothing for the root itself or a
    /// path without `/`.
    pub fn parent(path: &str) -> (r: Option<String>)
        ensures
            match spec_parent(path@) {
                Some(q) => r matches Some(s) && s@ == q,
                None => r is None,
            },
    {
        let p = chars_of(path);
        if p.len() == 1 && p[0] == '/' {
            assert(path@ =~= seq!['/']);
            return None;
        }
        assert(path@ != seq!['/']);
        let t = trim_end(&p);
        match rfind_slash(&t) {
            Some(pos) => {
                if pos == 0 {
                    let mut v: Vec<char> = Vec::new();
                    v.push('/');
                    assert(v@ =~= seq!['/']);
                    Some(string_from_chars(&v))
                } else {
                    let mut v: Vec<char> = Vec::new();
                    let mut i: usize = 0;
                    while i < pos
                        invariant
                            pos < t@.len(),
                            0 <= i <= pos,
                            v@ == t@.take(i as int),
                        decreases pos - i,
                    {
                        v.push(t[i]);
                        assert(v@ =~= t@.take(i as int + 1));
                        i = i + 1;
                    }
                    Some(string_from_chars(&v))
                }
            },
            None => None,
        }
    }

    /// The last component of a path (trailing `/` ignored); nothing for
    /// the root.
    pub fn filename(path: &str) -> (r: Option<&str>)
        ensures
            match spec_filename(path@) {
                Some(q) => r matches Some(s) && s@ == q,
                None => r is None,
            },
    {
        let p = chars_of(path);
        if p.len() == 1 && p[0] == '/' {
            assert(path@ =~= seq!['/']);
            return None;
        }
        let t = trim_end(&p);
        proof {
            lemma_trim_end_prefix(path@);
        }
        match rfind_slash(&t) {
            Some(pos) => {
                let r = path.substring_char(pos + 1, t.len());
                assert(r@ =~= t@.subrange(pos + 1, t@.len() as int));
                Some(r)
            },
            None => {
                let r = path.substring_char(0, t.len());
                assert(r@ =~= t@);
                Some(r)
            },
        }
    }

    /// `base` and `component` joined by one `/` (none added when `base`
    /// already ends with `/`).
    pub fn join(base: &str, component: &str) -> (r: String)
        ensures
            r@ == spec_join(base@, component@),
    {
        let b = chars_of(base);
        let mut s = String::from_str(base);
        if !(b.len() > 0 && b[b.len() - 1] == '/') {
            let sep = "/";
            proof {
                reveal_strlit("/");
            }
            s.append(sep);
        }
        s.append(component);
        s
    }
}

impl Default for PathResolver {
    fn default() -> (r: Self)
        ensures
            r.spec_cwd() == seq!['/'],
    {
        Self::new()
    }
}

/// `base` and `component` joined by one `/`, as `join` does it.
pub open spec fn spec_join(base: Seq<char>, component: Seq<char>) -> Seq<char> {
    if base.len() > 0 && base.last() == '/' {
        base + component
    } else {
        base + seq!['/'] + component
    }
}

/// The parent directory `parent` gives for a path.
pub open spec fn spec_parent(p: Seq<char>) -> Option<Seq<char>> {
    if p == seq!['/'] {
        None
    } else {
        let t = spec_trim_end(p);
        match spec_rfind_slash(t) {
            Some(pos) => Some(if pos == 0 { seq!['/'] } else { t.take(pos) }),
            None => None,
        }
    }
}

/// The last component `filename` gives for a path.
pub open spec fn spec_filename(p: Seq<char>) -> Option<Seq<char>> {
    if p == seq!['/'] {
        None
    } else {
        let t = spec_trim_end(p);
        match spec_rfind_slash(t) {
            Some(pos) => Some(t.subrange(pos + 1, t.len() as int)),
            None => Some(t),
        }
    }
}

/// The characters without the trailing `/` characters.
fn trim_end(p: &Vec<char>) -> (r: Vec<char>)
    ensures
        r@ == spec_trim_end(p@),
{
    let mut n = p.len();
    assert(p@.take(n as int) =~= p@);
    while n > 0 && p[n - 1] == '/'
        invariant
            0 <= n <= p@.len(),
            spec_trim_end(p@) == spec_trim_end(p@.take(n as int)),
        decreases n,
    {
        assert(p@.take(n as int).drop_last() =~= p@.take(n as int - 1));
        n = n - 1;
    }
    let mut r: Vec<char> = Vec::new();
    let mut i: usize = 0;
    while i < n
        invariant
            0 <= i <= n <= p@.len(),
            r@ == p@.take(i as int),
        decreases n - i,
    {
        r.push(p[i]);
        assert(r@ =~= p@.take(i as int + 1));
        i = i + 1;
    }
    r
}

/// Position of the last `/`.
fn rfind_slash(t: &Vec<char>) -> (r: Option<usize>)
    ensures
        r matches Some(p) ==> p < t@.len(),
        match spec_rfind_slash(t@) {
            Some(p) => r == Some(p as usize) && 0 <= p < t@.len(),
            None => r is None,
        },
{
    proof {
        lemma_rfind_bounds(t@);
    }
    let mut n = t.len();
    assert(t@.take(n as int) =~= t@);
    while n > 0
        invariant
            0 <= n <= t@.len(),
            spec_rfind_slash(t@) == spec_rfind_slash(t@.take(n as int)),
        decreases n,
    {
        if t[n - 1] == '/' {
            return Some(n - 1);
        }
        assert(t@.take(n as int).drop_last() =~= t@.take(n as int - 1));
        n = n - 1;
    }
    None
}

proof fn lemma_rfind_bounds(s: Seq<char>)
    ensures
        spec_rfind_slash(s) matches Some(p) ==> 0 <= p < s.len() && s[p] == '/',
    decreases s.len(),
{
    if s.len() > 0 && s.last() != '/' {
        lemma_rfind_bounds(s.drop_last());
    }
}

proof fn lemma_trim_end_prefix(s: Seq<char>)
    ensures
        spec_trim_end(s) =~= s.take(spec_trim_end(s).len() as int),
        spec_trim_end(s).len() <= s.len(),
    decreases s.len(),
{
    if s.len() > 0 && s.last() == '/' {
        lemma_trim_end_prefix(s.drop_last());
    }
}

/// A path component: not empty, without `/`.
pub open spec fn spec_word(w: Seq<char>) -> bool {
    w.len() > 0 && forall|i: int| 0 <= i < w.len() ==> w[i] != '/'
}

/// Splitting without finishing the last run: the components found and the
/// run in progress.
pub open spec fn spec_split_state(s: Seq<char>, acc: Seq<Seq<char>>, cur: Seq<char>) -> (Seq<Seq<char>>, Seq<char>)
    decreases s.len(),
{
    if s.len() == 0 {
        (acc, cur)
    } else if s[0] == '/' {
        spec_split_state(s.drop_first(), if cur.len() == 0 { acc } else { acc.push(cur) }, Seq::empty())
    } else {
        spec_split_state(s.drop_first(), acc, cur.push(s[0]))
    }
}

/// The components found and the run in progress, with the run added when
/// not empty.
pub open spec fn spec_finish(st: (Seq<Seq<char>>, Seq<char>)) -> Seq<Seq<char>> {
    if st.1.len() == 0 {
        st.0
    } else {
        st.0.push(st.1)
    }
}

proof fn lemma_split_is_finished_state(s: Seq<char>, acc: Seq<Seq<char>>, cur: Seq<char>)
    ensures
        spec_split_acc(s, acc, cur) == spec_finish(spec_split_state(s, acc, cur)),
    decreases s.len(),
{
    if s.len() > 0 {
        if s[0] == '/' {
            lemma_split_is_finished_state(s.drop_first(), if cur.len() == 0 { acc } else { acc.push(cur) }, Seq::empty());
        } else {
            lemma_split_is_finished_state(s.drop_first(), acc, cur.push(s[0]));
        }
    }
}

proof fn lemma_split_state_concat(a: Seq<char>, b: Seq<char>, acc: Seq<Seq<char>>, cur: Seq<char>)
    ensures
        spec_split_state(a + b, acc, cur) == ({
            let st = spec_split_state(a, acc, cur);
            spec_split_state(b, st.0, st.1)
        }),
    decreases a.len(),
{
    if a.len() == 0 {
        assert(a + b =~= b);
    } else {
        assert((a + b).drop_first() =~= a.drop_first() + b);
        assert((a + b)[0] == a[0]);
        if a[0] == '/' {
            lemma_split_state_concat(a.drop_first(), b, if cur.len() == 0 { acc } else { acc.push(cur) }, Seq::empty());
        } else {
            lemma_split_state_concat(a.drop_first(), b, acc, cur.push(a[0]));
        }
    }
}

proof fn lemma_split_state_word(w: Seq<char>, acc: Seq<Seq<char>>, cur: Seq<char>)
    requires
        forall|i: int| 0 <= i < w.len() ==> w[i] != '/',
    ensures
        spec_split_state(w, acc, cur) == (acc, cur + w),
    decreases w.len(),
{
    if w.len() == 0 {
        assert(cur + w =~= cur);
    } else {
        lemma_split_state_word(w.drop_first(), acc, cur.push(w[0]));
        assert(cur.push(w[0]) + w.drop_first() =~= cur + w);
    }
}

proof fn lemma_split_state_join(c: Seq<Seq<char>>, acc: Seq<Seq<char>>)
    requires
        c.len() > 0,
        forall|i: int| 0 <= i < c.len() ==> spec_word(#[trigger] c[i]),
    ensures
        spec_split_state(spec_join_abs(c), acc, Seq::empty()) == (acc + c.drop_last(), c.last()),
    decreases c.len(),
{
    let slash = seq!['/'];
    if c.len() == 1 {
        lemma_split_state_concat(slash, c[0], acc, Seq::empty());
        assert(spec_split_state(slash.drop_first(), acc, Seq::empty()) == (acc, Seq::<char>::empty()));
        lemma_split_state_word(c[0], acc, Seq::empty());
        assert(Seq::<char>::empty() + c[0] =~= c[0]);
        assert(acc + c.drop_last() =~= acc);
    } else {
        let prev = c.drop_last();
        assert forall|i: int| 0 <= i < prev.len() implies spec_word(#[trigger] prev[i]) by {
            assert(prev[i] == c[i]);
        }
        lemma_split_state_join(prev, acc);
        lemma_split_state_concat(spec_join_abs(prev) + slash, c.last(), acc, Seq::empty());
        lemma_split_state_concat(spec_join_abs(prev), slash, acc, Seq::empty());
        assert(spec_word(c[c.len() - 1]));
        assert(spec_word(prev[prev.len() - 1]));
        let mid = (acc + prev.drop_last()).push(prev.last());
        assert(slash.drop_first() =~= Seq::<char>::empty());
        assert(slash[0] == '/');
        assert(prev.last().len() > 0);
        let st1 = spec_split_state(slash.drop_first(), mid, Seq::empty());
        assert(st1 == (mid, Seq::<char>::empty()));
        assert(spec_split_state(slash, acc + prev.drop_last(), prev.last()) == st1);
        lemma_split_state_word(c.last(), mid, Seq::empty());
        assert(Seq::<char>::empty() + c.last() =~= c.last());
        assert(mid =~= acc + c.drop_last());
    }
}

proof fn lemma_components_of_join(c: Seq<Seq<char>>)
    requires
        forall|i: int| 0 <= i < c.len() ==> spec_word(#[trigger] c[i]),
    ensures
        spec_components(spec_join_abs(c)) == c,
{
    lemma_split_is_finished_state(spec_join_abs(c), Seq::empty(), Seq::empty());
    if c.len() == 0 {
        let slash = seq!['/'];
        assert(spec_join_abs(c) == slash);
        assert(slash.drop_first() =~= Seq::<char>::empty());
        assert(slash[0] == '/');
        let st = spec_split_state(slash.drop_first(), Seq::<Seq<char>>::empty(), Seq::<char>::empty());
        assert(st == (Seq::<Seq<char>>::empty(), Seq::<char>::empty()));
        assert(spec_split_state(slash, Seq::empty(), Seq::empty()) == st);
        assert(c =~= Seq::<Seq<char>>::empty());
    } else {
        lemma_split_state_join(c, Seq::empty());
        assert(spec_word(c[c.len() - 1]));
        assert(Seq::<Seq<char>>::empty() + c.drop_last() =~= c.drop_last());
        assert(c.drop_last().push(c.last()) =~= c);
    }
}

proof fn lemma_split_words(s: Seq<char>, acc: Seq<Seq<char>>, cur: Seq<char>)
    requires
        forall|i: int| 0 <= i < acc.len() ==> spec_word(#[trigger] acc[i]),
        forall|i: int| 0 <= i < cur.len() ==> cur[i] != '/',
    ensures
        forall|i: int|
            0 <= i < spec_split_acc(s, acc, cur).len() ==> spec_word(#[trigger] spec_split_acc(s, acc, cur)[i]),
    decreases s.len(),
{
    if s.len() == 0 {
        if cur.len() > 0 {
            assert(spec_word(cur));
            assert forall|i: int| 0 <= i < acc.push(cur).len() implies spec_word(#[trigger] acc.push(cur)[i]) by {
                if i < acc.len() {
                    assert(acc.push(cur)[i] == acc[i]);
                } else {
                    assert(acc.push(cur)[i] == cur);
                }
            }
            assert(spec_split_acc(s, acc, cur) == acc.push(cur));
        } else {
            assert(spec_split_acc(s, acc, cur) == acc);
        }
    } else if s[0] == '/' {
        let acc2 = if cur.len() == 0 { acc } else { acc.push(cur) };
        assert forall|i: int| 0 <= i < acc2.len() implies spec_word(#[trigger] acc2[i]) by {
            if cur.len() > 0 && i < acc.len() {
                assert(acc.push(cur)[i] == acc[i]);
            }
        }
        lemma_split_words(s.drop_first(), acc2, Seq::empty());
        assert(spec_split_acc(s, acc, cur) == spec_split_acc(s.drop_first(), acc2, Seq::empty()));
    } else {
        let cur2 = cur.push(s[0]);
        assert forall|i: int| 0 <= i < cur2.len() implies cur2[i] != '/' by {
            if i < cur.len() {
                assert(cur2[i] == cur[i]);
            }
        }
        lemma_split_words(s.drop_first(), acc, cur2);
        assert(spec_split_acc(s, acc, cur) == spec_split_acc(s.drop_first(), acc, cur2));
    }
}

/// A resolved component list: words, none of them `.` or `..`.
pub open spec fn spec_resolved(c: Seq<Seq<char>>) -> bool {
    forall|i: int|
        0 <= i < c.len() ==> spec_word(#[trigger] c[i]) && c[i] != seq!['.'] && c[i] != seq!['.', '.']
}

proof fn lemma_resolve_dots_resolved(c: Seq<Seq<char>>)
    requires
        forall|i: int| 0 <= i < c.len() ==> spec_word(#[trigger] c[i]),
    ensures
        spec_resolved(spec_resolve_dots(c)),
    decreases c.len(),
{
    if c.len() > 0 {
        let prev_in = c.drop_last();
        assert forall|i: int| 0 <= i < prev_in.len() implies spec_word(#[trigger] prev_in[i]) by {
            assert(prev_in[i] == c[i]);
        }
        lemma_resolve_dots_resolved(prev_in);
        let prev = spec_resolve_dots(prev_in);
        let x = c.last();
        assert(spec_word(c[c.len() - 1]));
        if x != seq!['.'] && x != seq!['.', '.'] {
            assert forall|i: int| 0 <= i < prev.push(x).len() implies spec_word(#[trigger] prev.push(x)[i])
                && prev.push(x)[i] != seq!['.'] && prev.push(x)[i] != seq!['.', '.'] by {
                if i < prev.len() {
                    assert(prev.push(x)[i] == prev[i]);
                }
            }
        } else if x == seq!['.', '.'] && prev.len() > 0 {
            assert forall|i: int| 0 <= i < prev.drop_last().len() implies spec_word(#[trigger] prev.drop_last()[i])
                && prev.drop_last()[i] != seq!['.'] && prev.drop_last()[i] != seq!['.', '.'] by {
                assert(prev.drop_last()[i] == prev[i]);
            }
        }
    }
}

proof fn lemma_resolve_dots_fixed(c: Seq<Seq<char>>)
    requires
        spec_resolved(c),
    ensures
        spec_resolve_dots(c) == c,
    decreases c.len(),
{
    if c.len() > 0 {
        let prev_in = c.drop_last();
        assert forall|i: int| 0 <= i < prev_in.len() implies spec_word(#[trigger] prev_in[i])
            && prev_in[i] != seq!['.'] && prev_in[i] != seq!['.', '.'] by {
            assert(prev_in[i] == c[i]);
        }
        lemma_resolve_dots_fixed(prev_in);
        assert(c[c.len() - 1] != seq!['.'] && c[c.len() - 1] != seq!['.', '.']);
        assert(prev_in.push(c.last()) =~= c);
    }
}

/// Normalizing is idempotent: the normal form of a normal form is itself.
pub proof fn lemma_normalize_idempotent(s: Seq<char>)
    ensures
        spec_normalize(spec_normalize(s)) == spec_normalize(s),
{
    lemma_split_words(s, Seq::empty(), Seq::empty());
    let r = spec_resolve_dots(spec_components(s));
    lemma_resolve_dots_resolved(spec_components(s));
    assert forall|i: int| 0 <= i < r.len() implies spec_word(#[trigger] r[i]) by {}
    lemma_components_of_join(r);
    lemma_resolve_dots_fixed(r);
}

/// No `/` in `p` is directly followed by another `/`.
pub open spec fn spec_no_double_slash(p: Seq<char>) -> bool {
    forall|i: int, j: int| #![trigger p[i], p[j]] 0 <= i && j == i + 1 && j < p.len() && p[i] == '/' ==> p[j] != '/'
}

proof fn lemma_join_abs_shape(c: Seq<Seq<char>>)
    requires
        forall|i: int| 0 <= i < c.len() ==> spec_word(#[trigger] c[i]),
    ensures
        spec_join_abs(c).len() >= 1,
        spec_join_abs(c)[0] == '/',
        c.len() > 0 ==> spec_join_abs(c).last() != '/',
        c.len() > 0 ==> spec_join_abs(c).len() > 1,
        spec_no_double_slash(spec_join_abs(c)),
    decreases c.len(),
{
    let p = spec_join_abs(c);
    if c.len() == 1 {
        let w = c[0];
        assert(spec_word(w));
        assert(p == seq!['/'] + w);
        assert forall|i: int, j: int| #![trigger p[i], p[j]] 0 <= i && j == i + 1 && j < p.len() && p[i] == '/' implies p[j] != '/' by {
            assert(p[j] == w[j - 1]);
            if i > 0 {
                assert(p[i] == w[i - 1]);
            }
        }
        assert(p.last() == w[w.len() - 1]);
    } else if c.len() > 1 {
        let prev = c.drop_last();
        assert forall|i: int| 0 <= i < prev.len() implies spec_word(#[trigger] prev[i]) by {
            assert(prev[i] == c[i]);
        }
        lemma_join_abs_shape(prev);
        let q = spec_join_abs(prev);
        let w = c.last();
        assert(spec_word(c[c.len() - 1]));
        assert(p == q + seq!['/'] + w);
        let n = q.len() as int;
        assert forall|i: int, j: int| #![trigger p[i], p[j]] 0 <= i && j == i + 1 && j < p.len() && p[i] == '/' implies p[j] != '/' by {
            if j < n {
                assert(p[i] == q[i] && p[j] == q[j]);
            } else if j == n {
                assert(p[i] == q[n - 1]);
            } else {
                assert(p[j] == w[j - n - 1]);
            }
        }
        assert(p.last() == w[w.len() - 1]);
        assert(p[0] == q[0]);
    }
}

/// What `normalize` returns is a normal form: it starts with `/`, holds no
/// doubled `/`, ends with `/` only when it is the root, and none of its
/// components is `.` or `..`.
pub proof fn lemma_normalize_shape(s: Seq<char>)
    ensures
        spec_normalize(s).len() >= 1,
        spec_normalize(s)[0] == '/',
        spec_normalize(s) == seq!['/'] || spec_normalize(s).last() != '/',
        spec_no_double_slash(spec_normalize(s)),
        spec_resolved(spec_components(spec_normalize(s))),
{
    lemma_split_words(s, Seq::empty(), Seq::empty());
    let r = spec_resolve_dots(spec_components(s));
    lemma_resolve_dots_resolved(spec_components(s));
    assert forall|i: int| 0 <= i < r.len() implies spec_word(#[trigger] r[i]) by {}
    lemma_join_abs_shape(r);
    lemma_components_of_join(r);
}

proof fn lemma_rfind_after_slash(a: Seq<char>, w: Seq<char>)
    requires
        forall|i: int| 0 <= i < w.len() ==> w[i] != '/',
    ensures
        spec_rfind_slash(a + seq!['/'] + w) == Some(a.len() as int),
    decreases w.len(),
{
    let x = a + seq!['/'] + w;
    if w.len() > 0 {
        assert(x.last() == w[w.len() - 1]);
        assert(x.drop_last() =~= a + seq!['/'] + w.drop_last());
        lemma_rfind_after_slash(a, w.drop_last());
    }
}

/// Joining the parent and the file name of a normalized path other than
/// the root gives the path back.
pub proof fn lemma_join_parent_filename(s: Seq<char>)
    requires
        spec_normalize(s) != seq!['/'],
    ensures
        ({
            let p = spec_normalize(s);
            &&& spec_parent(p) is Some
            &&& spec_filename(p) is Some
            &&& spec_join(spec_parent(p)->0, spec_filename(p)->0) == p
        }),
{
    lemma_split_words(s, Seq::empty(), Seq::empty());
    let r = spec_resolve_dots(spec_components(s));
    lemma_resolve_dots_resolved(spec_components(s));
    assert forall|i: int| 0 <= i < r.len() implies spec_word(#[trigger] r[i]) by {}
    lemma_join_abs_shape(r);
    let p = spec_normalize(s);
    assert(r.len() > 0);
    assert(spec_trim_end(p) == p);
    let w = r.last();
    assert(spec_word(r[r.len() - 1]));
    if r.len() == 1 {
        assert(p == Seq::<char>::empty() + seq!['/'] + w);
        lemma_rfind_after_slash(Seq::<char>::empty(), w);
        assert(p.subrange(1, p.len() as int) =~= w);
        assert(seq!['/'] + w =~= p);
    } else {
        let prev = r.drop_last();
        assert forall|i: int| 0 <= i < prev.len() implies spec_word(#[trigger] prev[i]) by {
            assert(prev[i] == r[i]);
        }
        lemma_join_abs_shape(prev);
        let q = spec_join_abs(prev);
        assert(p == q + seq!['/'] + w);
        lemma_rfind_after_slash(q, w);
        assert(p.take(q.len() as int) =~= q);
        assert(p.subrange(q.len() as int + 1, p.len() as int) =~= w);
        assert(q.len() != 0);
    }
}

} // verus!
