//! Unix paths as text: joining a path to another, splitting it into its
//! components, and comparing paths component by component, as the standard
//! library's `Path` does on Unix.

use vstd::prelude::*;
use crate::text::{chars_between, chars_of, find_char, find_char_from, push_char, push_chars};

verus! {

/// `rel` joined to `base` the way `PathBuf::push` does on Unix: an absolute
/// `rel` replaces `base`; otherwise a `/` is put between them unless `base`
/// is empty or already ends with one.
pub open spec fn join_path(base: Seq<char>, rel: Seq<char>) -> Seq<char> {
    if rel.len() > 0 && rel[0] == '/' {
        rel
    } else if base.len() == 0 || base.last() == '/' {
        base + rel
    } else {
        base + seq!['/'] + rel
    }
}

/// Joins `rel` to `base` the way `PathBuf::join` does on Unix.
pub fn join(base: &str, rel: &str) -> (r: String)
    ensures
        r@ == join_path(base@, rel@),
{
    let b = chars_of(base);
    let t = chars_of(rel);
    let mut r = String::new();
    if t.len() > 0 && t[0] == '/' {
        push_chars(&mut r, t.as_slice());
    } else {
        push_chars(&mut r, b.as_slice());
        if b.len() > 0 && b[b.len() - 1] != '/' {
            push_char(&mut r, '/');
        }
        push_chars(&mut r, t.as_slice());
    }
    assert(r@ == join_path(base@, rel@));
    r
}

/// One component of a path, as `std::path::Component` has it on Unix.
pub enum PathComponent {
    /// The leading `/` of an absolute path.
    RootDir,
    /// A leading `.` of a relative path.
    CurDir,
    /// `..`.
    ParentDir,
    /// Any other name.
    Normal(Seq<char>),
}

/// The components that one `/`-separated segment of a path contributes:
/// none for an empty segment or `.`, `ParentDir` for `..`, else the name.
pub open spec fn segment_components(seg: Seq<char>) -> Seq<PathComponent> {
    if seg.len() == 0 || seg == seq!['.'] {
        Seq::empty()
    } else if seg == seq!['.', '.'] {
        seq![PathComponent::ParentDir]
    } else {
        seq![PathComponent::Normal(seg)]
    }
}

/// The components of the segments of `s` from index `from` on.
pub open spec fn body_components(s: Seq<char>, from: int) -> Seq<PathComponent>
    decreases s.len() - from,
{
    if from < 0 || from > s.len() {
        Seq::empty()
    } else {
        let i = find_char(s, '/', from);
        proof {
            crate::text::lemma_find_char_bounds(s, '/', from);
        }
        if i < s.len() {
            segment_components(s.subrange(from, i)) + body_components(s, i + 1)
        } else {
            segment_components(s.subrange(from, s.len() as int))
        }
    }
}

/// Whether a relative path begins with the current directory: it is `.` or
/// begins with `./`.
pub open spec fn starts_with_cur_dir(s: Seq<char>) -> bool {
    (s.len() == 1 && s[0] == '.') || (s.len() >= 2 && s[0] == '.' && s[1] == '/')
}

/// The components of the path `s`, as `Path::components` gives them on Unix.
pub open spec fn components(s: Seq<char>) -> Seq<PathComponent> {
    if s.len() > 0 && s[0] == '/' {
        seq![PathComponent::RootDir] + body_components(s, 1)
    } else if starts_with_cur_dir(s) {
        seq![PathComponent::CurDir] + body_components(s, 1)
    } else {
        body_components(s, 0)
    }
}

/// Whether `base`'s components begin the components of `path`, which is
/// what `Path::starts_with` tells.
pub open spec fn path_starts_with(path: Seq<char>, base: Seq<char>) -> bool {
    components(base).is_prefix_of(components(path))
}

/// A component of a path, as the library holds it.
pub enum Component {
    RootDir,
    CurDir,
    ParentDir,
    Normal(Vec<char>),
}

impl View for Component {
    type V = PathComponent;

    open spec fn view(&self) -> PathComponent {
        match self {
            Component::RootDir => PathComponent::RootDir,
            Component::CurDir => PathComponent::CurDir,
            Component::ParentDir => PathComponent::ParentDir,
            Component::Normal(n) => PathComponent::Normal(n@),
        }
    }
}

/// The views of a sequence of components.
pub open spec fn views(cs: Seq<Component>) -> Seq<PathComponent> {
    cs.map_values(|c: Component| c@)
}

/// Appends the components of one segment.
fn push_segment(out: &mut Vec<Component>, seg: Vec<char>)
    ensures
        views(final(out)@) == views(old(out)@) + segment_components(seg@),
{
    let ghost before = out@;
    if seg.len() == 0 || (seg.len() == 1 && seg[0] == '.') {
        assert(seg@.len() == 0 || seg@ == seq!['.']);
        assert(views(out@) == views(before) + segment_components(seg@));
    } else if seg.len() == 2 && seg[0] == '.' && seg[1] == '.' {
        assert(seg@ == seq!['.', '.']);
        out.push(Component::ParentDir);
        assert(views(out@) == views(before) + segment_components(seg@));
    } else {
        assert(seg@ != seq!['.'] && seg@ != seq!['.', '.']);
        let ghost sv = seg@;
        out.push(Component::Normal(seg));
        assert(views(out@) == views(before) + segment_components(sv));
    }
}

/// The components of the path `s`, as `Path::components` gives them on Unix.
pub fn path_components(s: &[char]) -> (r: Vec<Component>)
    ensures
        views(r@) == components(s@),
{
    let mut out: Vec<Component> = Vec::new();
    let mut from: usize = 0;
    if s.len() > 0 && s[0] == '/' {
        out.push(Component::RootDir);
        from = 1;
    } else if (s.len() == 1 && s[0] == '.') || (s.len() >= 2 && s[0] == '.' && s[1] == '/') {
        out.push(Component::CurDir);
        from = 1;
    }
    let ghost head = views(out@);
    assert(components(s@) == head + body_components(s@, from as int));
    loop
        invariant
            from <= s.len(),
            components(s@) == views(out@) + body_components(s@, from as int),
        decreases s.len() - from,
    {
        let i = find_char_from(s, '/', from);
        let seg = chars_between(s, from, i);
        let ghost before = views(out@);
        push_segment(&mut out, seg);
        if i < s.len() {
            assert(body_components(s@, from as int) == segment_components(s@.subrange(
                from as int,
                i as int,
            )) + body_components(s@, i + 1));
            assert(components(s@) == views(out@) + body_components(s@, i + 1));
            from = i + 1;
        } else {
            assert(body_components(s@, from as int) == segment_components(
                s@.subrange(from as int, s.len() as int),
            ));
            assert(components(s@) == views(out@));
            return out;
        }
    }
}

/// Whether two components are the same.
fn same_component(a: &Component, b: &Component) -> (r: bool)
    ensures
        r == (a@ == b@),
{
    match (a, b) {
        (Component::RootDir, Component::RootDir) => true,
        (Component::CurDir, Component::CurDir) => true,
        (Component::ParentDir, Component::ParentDir) => true,
        (Component::Normal(x), Component::Normal(y)) => {
            if x.len() != y.len() {
                assert(x@.len() != y@.len());
                return false;
            }
            let mut i: usize = 0;
            while i < x.len()
                invariant
                    a@ == PathComponent::Normal(x@),
                    b@ == PathComponent::Normal(y@),
                    x.len() == y.len(),
                    i <= x.len(),
                    forall|k: int| 0 <= k < i ==> x@[k] == y@[k],
                decreases x.len() - i,
            {
                if x[i] != y[i] {
                    assert(x@[i as int] != y@[i as int]);
                    assert(x@ != y@);
                    return false;
                }
                i += 1;
            }
            assert(x@ == y@);
            true
        },
        _ => false,
    }
}

/// Whether the components of `base` begin the components of `path`, as
/// `Path::starts_with` tells.
pub fn starts_with(path: &str, base: &str) -> (r: bool)
    ensures
        r == path_starts_with(path@, base@),
{
    let p = chars_of(path);
    let b = chars_of(base);
    let pc = path_components(p.as_slice());
    let bc = path_components(b.as_slice());
    let ghost pv = views(pc@);
    let ghost bv = views(bc@);
    if bc.len() > pc.len() {
        return false;
    }
    let mut i: usize = 0;
    while i < bc.len()
        invariant
            bc.len() <= pc.len(),
            i <= bc.len(),
            pv == views(pc@),
            bv == views(bc@),
            pv == components(path@),
            bv == components(base@),
            forall|k: int| 0 <= k < i ==> bv[k] == pv[k],
        decreases bc.len() - i,
    {
        if !same_component(&bc[i], &pc[i]) {
            assert(bv[i as int] != pv[i as int]);
            assert(pv.subrange(0, bv.len() as int)[i as int] == pv[i as int]);
            return false;
        }
        i += 1;
    }
    assert(bv =~= pv.subrange(0, bv.len() as int));
    true
}

/// The text of a sequence of components: `/` for the root, then the other
/// components with `/` between them.
pub open spec fn render(cs: Seq<PathComponent>) -> Seq<char>
    decreases cs.len(),
{
    if cs.len() == 0 {
        Seq::empty()
    } else {
        join_path(render(cs.drop_last()), component_text(cs.last()))
    }
}

/// The text of one component.
pub open spec fn component_text(c: PathComponent) -> Seq<char> {
    match c {
        PathComponent::RootDir => seq!['/'],
        PathComponent::CurDir => seq!['.'],
        PathComponent::ParentDir => seq!['.', '.'],
        PathComponent::Normal(n) => n,
    }
}

/// The parent of a path, as `Path::parent` finds it: the path without its
/// last component, where that component is a name, `.` or `..`; `None` for
/// the root and for a path with no component. The parent is given as the
/// text of its components.
pub open spec fn parent_spec(s: Seq<char>) -> Option<Seq<char>> {
    let cs = components(s);
    if cs.len() == 0 || cs.last() == PathComponent::RootDir {
        None
    } else {
        Some(render(cs.drop_last()))
    }
}

/// The text of the first `n` components of `cs`.
fn render_prefix(cs: &Vec<Component>, n: usize) -> (r: String)
    requires
        n <= cs.len(),
    ensures
        r@ == render(views(cs@).take(n as int)),
{
    let mut r = String::new();
    let mut i: usize = 0;
    assert(views(cs@).take(0) =~= Seq::<PathComponent>::empty());
    while i < n
        invariant
            i <= n <= cs.len(),
            r@ == render(views(cs@).take(i as int)),
        decreases n - i,
    {
        let ghost before = r@;
        let ghost prefix = views(cs@).take(i + 1);
        assert(prefix.drop_last() == views(cs@).take(i as int));
        assert(prefix.last() == cs@[i as int]@);
        let rel: Vec<char> = match &cs[i] {
            Component::RootDir => vec!['/'],
            Component::CurDir => vec!['.'],
            Component::ParentDir => vec!['.', '.'],
            Component::Normal(name) => {
                let mut v: Vec<char> = Vec::new();
                let mut k: usize = 0;
                while k < name.len()
                    invariant
                        k <= name.len(),
                        v@ == name@.take(k as int),
                    decreases name.len() - k,
                {
                    v.push(name[k]);
                    k += 1;
                    assert(v@ == name@.take(k as int));
                }
                assert(name@.take(name.len() as int) == name@);
                v
            },
        };
        assert(rel@ == component_text(cs@[i as int]@));
        let cur = string_of_chars(&r);
        let mut next = String::new();
        if rel.len() > 0 && rel[0] == '/' {
            push_chars(&mut next, rel.as_slice());
        } else {
            push_chars(&mut next, cur.as_slice());
            if cur.len() > 0 && cur[cur.len() - 1] != '/' {
                push_char(&mut next, '/');
            }
            push_chars(&mut next, rel.as_slice());
        }
        assert(next@ == join_path(before, rel@));
        r = next;
        i += 1;
    }
    r
}

/// The characters of a string.
fn string_of_chars(s: &String) -> (r: Vec<char>)
    ensures
        r@ == s@,
{
    chars_of(s.as_str())
}

/// The parent of the path `s`, as `Path::parent` finds it, written as the
/// text of its components.
pub fn parent(s: &str) -> (r: Option<String>)
    ensures
        match r {
            Some(p) => parent_spec(s@) == Some(p@),
            None => parent_spec(s@) is None,
        },
{
    let cs = chars_of(s);
    let comps = path_components(cs.as_slice());
    if comps.len() == 0 {
        return None;
    }
    let last = comps.len() - 1;
    let is_root = match &comps[last] {
        Component::RootDir => true,
        _ => false,
    };
    if is_root {
        return None;
    }
    assert(views(comps@).drop_last() == views(comps@).take(last as int));
    Some(render_prefix(&comps, last))
}

} // verus!
