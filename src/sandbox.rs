//! The sandbox of the built-in file tools: a root directory, a working
//! directory, and the lexical resolution of tool-supplied paths that keeps
//! them inside the root.
use vstd::prelude::*;
use vstd::string::*;
use crate::text::str_eq;

verus! {

/// The `/`-separated segments of a path text, empty segments included.
pub open spec fn split_path(s: Seq<char>) -> Seq<Seq<char>>
    decreases s.len(),
{
    if s.len() == 0 {
        seq![Seq::empty()]
    } else {
        let init = split_path(s.drop_last());
        if s.last() == '/' {
            init.push(Seq::empty())
        } else {
            init.update(init.len() - 1, init.last().push(s.last()))
        }
    }
}

/// One segment applied to the components resolved so far: empty and `.`
/// segments change nothing, `..` drops the last component (none above the
/// root), any other segment is appended.
pub open spec fn apply_segment(stack: Seq<Seq<char>>, g: Seq<char>) -> Seq<Seq<char>> {
    if g.len() == 0 || g == "."@ {
        stack
    } else if g == ".."@ {
        if stack.len() > 0 {
            stack.drop_last()
        } else {
            stack
        }
    } else {
        stack.push(g)
    }
}

/// The components that a sequence of segments resolves to.
pub open spec fn resolve_segments(segs: Seq<Seq<char>>) -> Seq<Seq<char>>
    decreases segs.len(),
{
    if segs.len() == 0 {
        Seq::empty()
    } else {
        apply_segment(resolve_segments(segs.drop_last()), segs.last())
    }
}

/// The components of a path after lexical normalisation.
pub open spec fn normalized_components(path: Seq<char>) -> Seq<Seq<char>> {
    resolve_segments(split_path(path))
}

/// Components written after a root: `/a/b` for `[a, b]`.
pub open spec fn render_tail(comps: Seq<Seq<char>>) -> Seq<char>
    decreases comps.len(),
{
    if comps.len() == 0 {
        Seq::empty()
    } else {
        render_tail(comps.drop_last()) + seq!['/'] + comps.last()
    }
}

/// An absolute path from its components: `/` when there are none.
pub open spec fn render_path(comps: Seq<Seq<char>>) -> Seq<char> {
    if comps.len() == 0 {
        seq!['/']
    } else {
        render_tail(comps)
    }
}

/// A tool path taken relative to the working directory unless it is absolute.
pub open spec fn joined_path(working: Seq<char>, p: Seq<char>) -> Seq<char> {
    if p.len() > 0 && p[0] == '/' {
        p
    } else {
        working + seq!['/'] + p
    }
}

/// Whether the components begin with those of the root.
pub open spec fn within(comps: Seq<Seq<char>>, root: Seq<Seq<char>>) -> bool {
    root.len() <= comps.len() && comps.subrange(0, root.len() as int) == root
}

pub open spec fn views(v: Seq<String>) -> Seq<Seq<char>> {
    v.map_values(|x: String| x@)
}

proof fn lemma_split_nonempty(s: Seq<char>)
    ensures
        split_path(s).len() >= 1,
    decreases s.len(),
{
    if s.len() > 0 {
        lemma_split_nonempty(s.drop_last());
    }
}

fn apply_segment_exec(stack: &mut Vec<String>, g: String)
    ensures
        views(final(stack)@) == apply_segment(views(old(stack)@), g@),
{
    proof {
        reveal_strlit(".");
        reveal_strlit("..");
    }
    let ghost before = views(stack@);
    if g.unicode_len() == 0 || str_eq(g.as_str(), ".") {
    } else if str_eq(g.as_str(), "..") {
        if stack.len() > 0 {
            stack.pop();
            assert(views(stack@) =~= before.drop_last());
        }
    } else {
        stack.push(g);
        assert(views(stack@) =~= before.push(g@));
    }
}

/// The normalised components of a path text.
pub fn normalized_parts(path: &str) -> (r: Vec<String>)
    ensures
        views(r@) == normalized_components(path@),
{
    let n = path.unicode_len();
    let mut stack: Vec<String> = Vec::new();
    let mut cur = String::new();
    let ghost mut done: Seq<Seq<char>> = Seq::empty();
    let mut i: usize = 0;
    assert(path@.subrange(0, 0) =~= Seq::<char>::empty());
    assert(views(stack@) =~= Seq::<Seq<char>>::empty());
    while i < n
        invariant
            n == path@.len(),
            0 <= i <= n,
            split_path(path@.subrange(0, i as int)) == done.push(cur@),
            views(stack@) == resolve_segments(done),
        decreases n - i,
    {
        let ghost pre = path@.subrange(0, i as int);
        let ghost nxt = path@.subrange(0, i as int + 1);
        assert(nxt.drop_last() =~= pre);
        let c = path.get_char(i);
        assert(nxt.last() == c);
        if c == '/' {
            let seg = cur;
            cur = String::new();
            proof {
                assert(done.push(seg@).drop_last() =~= done);
            }
            apply_segment_exec(&mut stack, seg);
            proof {
                done = done.push(seg@);
                assert(split_path(nxt) == split_path(pre).push(Seq::empty()));
                assert(cur@ =~= Seq::<char>::empty());
            }
        } else {
            let piece = path.substring_char(i, i + 1);
            assert(piece@ =~= seq![c]);
            let ghost old_cur = cur@;
            cur.append(piece);
            proof {
                lemma_split_nonempty(pre);
                let init = split_path(pre);
                assert(init == done.push(old_cur));
                assert(split_path(nxt) == init.update(init.len() - 1, init.last().push(c)));
                assert(old_cur.push(c) =~= cur@);
                assert(split_path(nxt) =~= done.push(cur@));
            }
        }
        i = i + 1;
    }
    assert(path@.subrange(0, n as int) =~= path@);
    let ghost last = cur@;
    apply_segment_exec(&mut stack, cur);
    proof {
        assert(done.push(last).drop_last() =~= done);
    }
    stack
}

/// Writes components as an absolute path.
pub fn render_parts(parts: &Vec<String>) -> (r: String)
    ensures
        r@ == render_path(views(parts@)),
{
    proof {
        reveal_strlit("/");
    }
    if parts.len() == 0 {
        let r = String::from_str("/");
        assert(r@ =~= seq!['/']);
        return r;
    }
    let mut r = String::new();
    let mut i: usize = 0;
    while i < parts.len()
        invariant
            0 <= i <= parts@.len(),
            r@ == render_tail(views(parts@.subrange(0, i as int))),
        decreases parts.len() - i,
    {
        proof {
            assert(views(parts@.subrange(0, i as int + 1)).drop_last() =~= views(parts@.subrange(0, i as int)));
        }
        let ghost old_r = r@;
        r.append("/");
        r.append(parts[i].as_str());
        proof {
            let vs = views(parts@.subrange(0, i as int + 1));
            assert(vs.last() == parts@[i as int]@);
            reveal_strlit("/");
            assert("/"@ =~= seq!['/']);
            assert(r@ =~= old_r + seq!['/'] + parts@[i as int]@);
            assert(r@ =~= render_tail(vs));
        }
        i = i + 1;
    }
    assert(parts@.subrange(0, parts@.len() as int) =~= parts@);
    r
}

/// Normalises an absolute path lexically: drops empty and `.` segments and
/// lets `..` remove the previous component.
pub fn normalize_absolute_path(path: &str) -> (r: String)
    ensures
        r@ == render_path(normalized_components(path@)),
{
    let parts = normalized_parts(path);
    render_parts(&parts)
}

fn parts_within(parts: &Vec<String>, root: &Vec<String>) -> (r: bool)
    ensures
        r == within(views(parts@), views(root@)),
{
    if root.len() > parts.len() {
        return false;
    }
    let mut k: usize = 0;
    while k < root.len()
        invariant
            root@.len() <= parts@.len(),
            0 <= k <= root@.len(),
            forall|j: int| 0 <= j < k ==> parts@[j]@ == root@[j]@,
        decreases root.len() - k,
    {
        if !str_eq(parts[k].as_str(), root[k].as_str()) {
            assert(views(parts@).subrange(0, root@.len() as int)[k as int] != views(root@)[k as int]);
            return false;
        }
        k = k + 1;
    }
    assert(views(parts@).subrange(0, root@.len() as int) =~= views(root@));
    true
}

/// The sandbox of one session.
#[derive(Debug, Clone)]
pub struct SandboxContext {
    root_dir: String,
    working_dir: String,
    session_id: String,
}

impl SandboxContext {
    pub closed spec fn spec_root(&self) -> Seq<char> {
        self.root_dir@
    }

    pub closed spec fn spec_working(&self) -> Seq<char> {
        self.working_dir@
    }

    pub closed spec fn spec_session(&self) -> Seq<char> {
        self.session_id@
    }

    /// A sandbox rooted at `root_dir` (already canonical), which is also the
    /// working directory.
    pub fn new(root_dir: String, session_id: String) -> (r: Self)
        ensures
            r.spec_root() == root_dir@,
            r.spec_working() == root_dir@,
            r.spec_session() == session_id@,
    {
        SandboxContext { working_dir: root_dir.clone(), root_dir, session_id }
    }

    pub fn root_dir(&self) -> (r: &str)
        ensures
            r@ == self.spec_root(),
    {
        self.root_dir.as_str()
    }

    pub fn working_dir(&self) -> (r: &str)
        ensures
            r@ == self.spec_working(),
    {
        self.working_dir.as_str()
    }

    pub fn session_id(&self) -> (r: &str)
        ensures
            r@ == self.spec_session(),
    {
        self.session_id.as_str()
    }

    /// Resolves a tool-supplied path against the working directory and
    /// normalises it; a result outside the root is refused.
    pub fn resolve_path(&self, path: &str) -> (r: Result<String, String>)
        ensures
            r is Ok <==> within(
                normalized_components(joined_path(self.spec_working(), path@)),
                normalized_components(self.spec_root()),
            ),
            r matches Ok(p) ==> p@ == render_path(normalized_components(joined_path(self.spec_working(), path@))),
            r matches Err(m) ==> m@ == "Path escapes sandbox: "@ + path@ + " -> "@ + render_path(
                normalized_components(joined_path(self.spec_working(), path@)),
            ),
    {
        let absolute = path.unicode_len() > 0 && path.get_char(0) == '/';
        let full = if absolute {
            String::from_str(path)
        } else {
            self.working_dir.clone().concat("/").concat(path)
        };
        proof {
            reveal_strlit("/");
            assert(full@ =~= joined_path(self.spec_working(), path@));
        }
        let parts = normalized_parts(full.as_str());
        let rendered = render_parts(&parts);
        let root = normalized_parts(self.root_dir.as_str());
        if !parts_within(&parts, &root) {
            return Err(String::from_str("Path escapes sandbox: ").concat(path).concat(" -> ").concat(rendered.as_str()));
        }
        Ok(rendered)
    }
}

} // verus!
