//! Path texts: joining, components and lexical normalisation.
//!
//! A path text is written with `/` as its separator, and one that starts at a
//! root begins with `/`, which is how POSIX writes a path. Where the platform
//! writes paths otherwise, the runtime turns them into this form before they come
//! here, and back before it touches the disk: a drive or a share is then the
//! first component below the root.

use vstd::prelude::*;

use crate::text;

verus! {

/// Whether a path starts at the root.
pub open spec fn absolute(p: Seq<char>) -> bool {
    p.len() > 0 && p[0] == '/'
}

/// `rel` taken from `base`: an absolute `rel` stands for itself, any other is
/// appended after a separator, which a base that is empty or ends in one does
/// not need.
pub open spec fn joined(base: Seq<char>, rel: Seq<char>) -> Seq<char> {
    if absolute(rel) {
        rel
    } else if base.len() == 0 || base.last() == '/' {
        base + rel
    } else {
        base.push('/') + rel
    }
}

/// The texts between the separators of `p`, empty ones included.
pub open spec fn segments(p: Seq<char>) -> Seq<Seq<char>>
    decreases p.len(),
{
    if p.len() == 0 {
        seq![seq![]]
    } else {
        let front = segments(p.drop_last());
        if p.last() == '/' {
            front.push(seq![])
        } else {
            front.drop_last().push(front.last().push(p.last()))
        }
    }
}

/// The segments that name something: no empty one, and `.` only at the start
/// of a relative path.
pub open spec fn named(segs: Seq<Seq<char>>) -> Seq<Seq<char>>
    decreases segs.len(),
{
    if segs.len() == 0 {
        seq![]
    } else {
        let front = named(segs.drop_last());
        let s = segs.last();
        if s.len() == 0 || (s == seq!['.'] && segs.len() > 1) {
            front
        } else {
            front.push(s)
        }
    }
}

/// The components of a path, the root being the component `/`.
pub open spec fn components(p: Seq<char>) -> Seq<Seq<char>> {
    if absolute(p) {
        seq![seq!['/']] + named(segments(p))
    } else {
        named(segments(p))
    }
}

/// Whether every component of `base` begins the components of `p`.
pub open spec fn starts_with(p: Seq<char>, base: Seq<char>) -> bool {
    components(base).is_prefix_of(components(p))
}

/// The components that are left once `.` is dropped and `..` takes back the
/// name before it. `..` at the root stays at the root; one that has nothing to
/// take back is kept.
pub open spec fn folded(cs: Seq<Seq<char>>) -> Seq<Seq<char>>
    decreases cs.len(),
{
    if cs.len() == 0 {
        seq![]
    } else {
        let front = folded(cs.drop_last());
        let c = cs.last();
        if c == seq!['.'] {
            front
        } else if c == seq!['.', '.'] {
            if front.len() == 0 || front.last() == seq!['.', '.'] {
                front.push(c)
            } else if front.last() == seq!['/'] {
                front
            } else {
                front.drop_last()
            }
        } else {
            front.push(c)
        }
    }
}

/// The path that has the given components.
pub open spec fn rendered(cs: Seq<Seq<char>>) -> Seq<char> {
    if cs.len() > 0 && cs[0] == seq!['/'] {
        seq!['/'] + text::joined(cs.drop_first(), seq!['/'])
    } else {
        text::joined(cs, seq!['/'])
    }
}

/// The lexically normalised form of `p`: no `.`, no empty segment, and `..`
/// resolved against the name before it.
pub open spec fn normalized(p: Seq<char>) -> Seq<char> {
    rendered(folded(components(p)))
}

/// Whether a path starts at the root.
pub fn is_absolute(p: &str) -> (r: bool)
    ensures
        r == absolute(p@),
{
    let cs = text::chars_of(p);
    cs.len() > 0 && cs[0] == '/'
}

/// `rel` taken from `base`.
pub fn join(base: &str, rel: &str) -> (r: String)
    ensures
        r@ == joined(base@, rel@),
{
    if is_absolute(rel) {
        return rel.to_owned();
    }
    let cs = text::chars_of(base);
    let mut out = base.to_owned();
    if cs.len() > 0 && cs[cs.len() - 1] != '/' {
        out.push('/');
    }
    out.append(rel);
    out
}

proof fn lemma_segments_nonempty(p: Seq<char>)
    ensures
        segments(p).len() > 0,
    decreases p.len(),
{
    if p.len() > 0 {
        lemma_segments_nonempty(p.drop_last());
    }
}

/// The texts between the separators of a path.
fn split_segments(p: &str) -> (r: Vec<String>)
    ensures
        r.deep_view() == segments(p@),
{
    let mut out: Vec<String> = Vec::new();
    let mut current = String::new();
    assert(p@.take(0) =~= seq![]);
    assert(out.deep_view().push(current@) =~= segments(p@.take(0)));
    for c in it: p.chars()
        invariant
            out.deep_view().push(current@) == segments(p@.take(it.index() as int)),
            it.seq() == p@,
    {
        let ghost done = p@.take(it.index() as int);
        let ghost next = p@.take(it.index() as int + 1);
        let ghost before = out.deep_view().push(current@);
        proof {
            assert(next.drop_last() =~= done);
            assert(next.last() == c);
            assert(before.drop_last() =~= out.deep_view());
        }
        if c == '/' {
            out.push(current);
            current = String::new();
            assert(out.deep_view() =~= before);
            assert(out.deep_view().push(current@) =~= segments(next));
        } else {
            current.push(c);
            assert(out.deep_view().push(current@) =~= segments(next));
        }
    }
    assert(p@.take(p@.len() as int) =~= p@);
    let ghost before = out.deep_view().push(current@);
    out.push(current);
    assert(out.deep_view() =~= before);
    out
}

/// The components of a path.
pub fn components_of(p: &str) -> (r: Vec<String>)
    ensures
        r.deep_view() == components(p@),
{
    let segs = split_segments(p);
    let ghost all = segs.deep_view();
    let mut out: Vec<String> = Vec::new();
    let ghost root: Seq<Seq<char>> = seq![];
    if is_absolute(p) {
        proof {
            reveal_strlit("/");
            root = seq![seq!['/']];
        }
        out.push("/".to_owned());
        assert("/"@ =~= seq!['/']);
        assert(out.deep_view() =~= root);
    }
    let mut i: usize = 0;
    assert(root + named(all.take(0)) =~= root);
    while i < segs.len()
        invariant
            i <= segs.len(),
            all == segs.deep_view(),
            out.deep_view() == root + named(all.take(i as int)),
        decreases segs.len() - i,
    {
        let ghost next = all.take(i + 1);
        let ghost before = out.deep_view();
        proof {
            reveal_strlit(".");
            assert("."@ =~= seq!['.']);
            assert(next.drop_last() =~= all.take(i as int));
            assert(next.last() == segs[i as int]@);
        }
        let s = &segs[i];
        if s.unicode_len() == 0 || (i > 0 && text::same_text(s, ".")) {
        } else {
            out.push(s.clone());
            assert(out.deep_view() =~= before.push(s@));
            assert(out.deep_view() =~= root + named(next));
        }
        i += 1;
    }
    assert(all.take(all.len() as int) =~= all);
    assert(!absolute(p@) ==> root + named(all) =~= named(all));
    out
}

/// Whether every component of `base` begins the components of `p`.
pub fn path_starts_with(p: &str, base: &str) -> (r: bool)
    ensures
        r == starts_with(p@, base@),
{
    let ps = components_of(p);
    let bs = components_of(base);
    let ghost pv = ps.deep_view();
    let ghost bv = bs.deep_view();
    if bs.len() > ps.len() {
        return false;
    }
    let mut i: usize = 0;
    while i < bs.len()
        invariant
            i <= bs.len() <= ps.len(),
            pv == ps.deep_view(),
            bv == bs.deep_view(),
            pv == components(p@),
            bv == components(base@),
            forall|j: int| 0 <= j < i ==> #[trigger] bv[j] == pv[j],
        decreases bs.len() - i,
    {
        if !text::same_text(&bs[i], &ps[i]) {
            assert(bv[i as int] != pv.subrange(0, bv.len() as int)[i as int]);
            return false;
        }
        assert(bv[i as int] == pv[i as int]);
        i += 1;
    }
    assert(bv =~= pv.subrange(0, bv.len() as int));
    true
}

/// The components that are left once `.` and `..` are resolved.
fn fold_components(cs: &Vec<String>) -> (r: Vec<String>)
    ensures
        r.deep_view() == folded(cs.deep_view()),
{
    let ghost all = cs.deep_view();
    let mut out: Vec<String> = Vec::new();
    let mut i: usize = 0;
    assert(out.deep_view() =~= folded(all.take(0)));
    while i < cs.len()
        invariant
            i <= cs.len(),
            all == cs.deep_view(),
            out.deep_view() == folded(all.take(i as int)),
        decreases cs.len() - i,
    {
        let ghost next = all.take(i + 1);
        let ghost before = out.deep_view();
        proof {
            reveal_strlit(".");
            reveal_strlit("..");
            reveal_strlit("/");
            assert("."@ =~= seq!['.']);
            assert(".."@ =~= seq!['.', '.']);
            assert("/"@ =~= seq!['/']);
            assert(next.drop_last() =~= all.take(i as int));
            assert(next.last() == cs[i as int]@);
        }
        let c = &cs[i];
        if text::same_text(c, ".") {
        } else if text::same_text(c, "..") {
            let n: usize = out.len();
            if n > 0 {
                assert(before.last() == out[n - 1]@);
            }
            if n == 0 || text::same_text(&out[n - 1], "..") {
                out.push(c.clone());
                assert(out.deep_view() =~= before.push(c@));
            } else if text::same_text(&out[n - 1], "/") {
            } else {
                out.pop();
                assert(out.deep_view() =~= before.drop_last());
            }
        } else {
            out.push(c.clone());
            assert(out.deep_view() =~= before.push(c@));
        }
        i += 1;
    }
    assert(all.take(all.len() as int) =~= all);
    out
}

/// The path that has the given components.
fn render(cs: Vec<String>) -> (r: String)
    ensures
        r@ == rendered(cs.deep_view()),
{
    let ghost all = cs.deep_view();
    proof {
        reveal_strlit("/");
        assert("/"@ =~= seq!['/']);
    }
    if cs.len() > 0 && text::same_text(&cs[0], "/") {
        let mut rest = cs;
        let root = rest.remove(0);
        assert(all[0] == root@);
        assert(rest.deep_view() =~= all.drop_first());
        let mut out = root;
        let tail = text::join(&rest, "/");
        out.append(&tail);
        out
    } else {
        assert(all.len() > 0 ==> all[0] == cs[0]@);
        text::join(&cs, "/")
    }
}

/// The lexically normalised form of a path; nothing is looked up on disk.
pub fn normalize_lexical(p: &str) -> (r: String)
    ensures
        r@ == normalized(p@),
{
    let cs = components_of(p);
    render(fold_components(&cs))
}

/// A name that can stand as one component: not empty, no separator in it, and
/// neither `.` nor `..`.
pub open spec fn plain_name(s: Seq<char>) -> bool {
    &&& s.len() > 0
    &&& !s.contains('/')
    &&& s != seq!['.']
    &&& s != seq!['.', '.']
}

proof fn lemma_segments_append(a: Seq<char>, x: Seq<char>)
    requires
        !x.contains('/'),
    ensures
        segments(a + x) == segments(a).drop_last().push(segments(a).last() + x),
    decreases x.len(),
{
    lemma_segments_nonempty(a);
    if x.len() == 0 {
        assert(a + x =~= a);
        assert(segments(a).last() + x =~= segments(a).last());
        assert(segments(a) =~= segments(a).drop_last().push(segments(a).last()));
    } else {
        let y = x.drop_last();
        assert(x[x.len() - 1] != '/');
        assert(!y.contains('/')) by {
            assert forall|i: int| 0 <= i < y.len() implies y[i] != '/' by {
                assert(y[i] == x[i]);
            }
        }
        lemma_segments_append(a, y);
        assert((a + x).drop_last() =~= a + y);
        assert((a + x).last() == x.last());
        assert((segments(a).last() + y).push(x.last()) =~= segments(a).last() + x);
        assert(segments(a + y).drop_last() =~= segments(a).drop_last());
    }
}

/// A name joined to a path becomes its last component.
pub proof fn join_adds_component(base: Seq<char>, name: Seq<char>)
    requires
        name.len() > 0,
        !name.contains('/'),
        name != seq!['.'],
    ensures
        components(joined(base, name)) == components(base).push(name),
{
    lemma_segments_nonempty(base);
    assert(!absolute(name)) by {
        if name[0] == '/' {
            assert(name.contains('/'));
        }
    }
    let segs = segments(base);
    let whole = joined(base, name);
    let all = segments(whole);
    if base.len() == 0 {
        assert(base + name =~= name);
        lemma_segments_append(base, name);
        assert(segs.last() + name =~= name);
        assert(all =~= seq![name]);
        assert(all.drop_last() =~= seq![]);
        assert(segs.drop_last() =~= seq![]);
        assert(named(segs.drop_last()) =~= seq![]);
        assert(named(segs) == named(segs.drop_last()));
    } else if base.last() == '/' {
        lemma_segments_append(base, name);
        assert(segs.last() + name =~= name);
        assert(all.drop_last() =~= segs.drop_last());
        assert(named(segs) == named(segs.drop_last()));
        lemma_segments_nonempty(base.drop_last());
    } else {
        let b = base.push('/');
        assert(b.drop_last() =~= base);
        assert(segments(b) == segs.push(seq![]));
        lemma_segments_append(b, name);
        assert(segments(b).last() + name =~= name);
        assert(segments(b).drop_last() =~= segs);
        assert(all.drop_last() =~= segs);
    }
    assert(named(all) == named(segs).push(name));
    if base.len() > 0 {
        assert(whole[0] == base[0]);
        assert(components(whole) =~= components(base).push(name));
    }
}

/// A path joined with a plain name starts with the path.
pub proof fn join_stays_below(base: Seq<char>, name: Seq<char>)
    requires
        plain_name(name),
    ensures
        starts_with(joined(base, name), base),
{
    join_adds_component(base, name);
    assert(components(base) =~= components(base).push(name).subrange(
        0,
        components(base).len() as int,
    ));
}

proof fn lemma_rendered_push(cs: Seq<Seq<char>>, a: Seq<char>, b: Seq<char>)
    requires
        cs.len() > 0,
        rendered(cs.push(a)) == rendered(cs.push(b)),
    ensures
        a == b,
{
    let sep = seq!['/'];
    let x = cs.push(a);
    let y = cs.push(b);
    if cs[0] == seq!['/'] {
        let dx = x.drop_first();
        let dy = y.drop_first();
        assert(dx.drop_last() =~= cs.drop_first());
        assert(dy.drop_last() =~= cs.drop_first());
        let head = if cs.len() == 1 {
            sep
        } else {
            sep + text::joined(cs.drop_first(), sep) + sep
        };
        assert(rendered(x) =~= head + a);
        assert(rendered(y) =~= head + b);
        assert((head + a).skip(head.len() as int) =~= a);
        assert((head + b).skip(head.len() as int) =~= b);
    } else {
        assert(x.drop_last() =~= cs);
        assert(y.drop_last() =~= cs);
        let head = text::joined(cs, sep) + sep;
        assert(rendered(x) =~= head + a);
        assert(rendered(y) =~= head + b);
        assert((head + a).skip(head.len() as int) =~= a);
        assert((head + b).skip(head.len() as int) =~= b);
    }
}

/// Two different plain names in one directory have different normalised paths.
pub proof fn siblings_differ(dir: Seq<char>, parent: Seq<char>, a: Seq<char>, b: Seq<char>)
    requires
        plain_name(parent),
        plain_name(a),
        plain_name(b),
        a != b,
    ensures
        normalized(joined(joined(dir, parent), a)) != normalized(joined(joined(dir, parent), b)),
{
    let base = joined(dir, parent);
    join_adds_component(dir, parent);
    join_adds_component(base, a);
    join_adds_component(base, b);
    let cs = components(base);
    assert(cs.drop_last() =~= components(dir));
    let fs = folded(cs);
    assert(fs == folded(components(dir)).push(parent));
    assert(cs.push(a).drop_last() =~= cs);
    assert(cs.push(b).drop_last() =~= cs);
    assert(folded(cs.push(a)) == fs.push(a));
    assert(folded(cs.push(b)) == fs.push(b));
    if normalized(joined(base, a)) == normalized(joined(base, b)) {
        lemma_rendered_push(fs, a, b);
    }
}

/// An absolute path replaces whatever it is joined to.
pub proof fn absolute_join_replaces(base: Seq<char>, rel: Seq<char>)
    requires
        absolute(rel),
    ensures
        joined(base, rel) == rel,
{
}

/// Every path starts with itself, and the relation is transitive.
pub proof fn starts_with_is_preorder(p: Seq<char>, q: Seq<char>, r: Seq<char>)
    ensures
        starts_with(p, p),
        starts_with(p, q) && starts_with(q, r) ==> starts_with(p, r),
{
    assert(components(p) =~= components(p).subrange(0, components(p).len() as int));
    if starts_with(p, q) && starts_with(q, r) {
        let (x, y, z) = (components(p), components(q), components(r));
        assert forall|i: int| 0 <= i < z.len() implies z[i] == x.subrange(0, z.len() as int)[i] by {
            assert(z[i] == y.subrange(0, z.len() as int)[i]);
            assert(y[i] == x.subrange(0, y.len() as int)[i]);
        }
        assert(z =~= x.subrange(0, z.len() as int));
    }
}

/// Whether a text can stand as a component of a normalised path.
spec fn clean(s: Seq<char>) -> bool {
    s.len() > 0 && !s.contains('/') && s != seq!['.']
}

/// Whether a list is made of components of some path: the root at most at the
/// start, and names without separators.
spec fn component_shape(cs: Seq<Seq<char>>) -> bool {
    forall|i: int|
        0 <= i < cs.len() ==> ((#[trigger] cs[i]).len() > 0 && !cs[i].contains('/')) || (i == 0
            && cs[i] == seq!['/'])
}

/// Whether a list is made of the components of a normalised path: no `.`, and
/// `..` only at the start of a relative path.
spec fn normal_shape(cs: Seq<Seq<char>>) -> bool {
    &&& forall|i: int|
        0 <= i < cs.len() ==> clean(#[trigger] cs[i]) || (i == 0 && cs[i] == seq!['/'])
    &&& forall|i: int, j: int|
        0 <= j < i < cs.len() && #[trigger] cs[i] == seq!['.', '.'] ==> #[trigger] cs[j] == seq![
            '.',
            '.',
        ]
}

proof fn lemma_segments_no_slash(p: Seq<char>)
    ensures
        forall|i: int| 0 <= i < segments(p).len() ==> !(#[trigger] segments(p)[i]).contains('/'),
    decreases p.len(),
{
    if p.len() > 0 {
        let q = p.drop_last();
        lemma_segments_nonempty(q);
        lemma_segments_no_slash(q);
        let front = segments(q);
        let all = segments(p);
        assert forall|i: int| 0 <= i < all.len() implies !(#[trigger] all[i]).contains('/') by {
            if p.last() == '/' {
                if i < front.len() {
                    assert(all[i] == front[i]);
                }
            } else if i < front.len() - 1 {
                assert(all[i] == front[i]);
            } else {
                let last = front[front.len() - 1];
                assert(all[i] == last.push(p.last()));
                assert(!last.contains('/'));
                assert forall|k: int| 0 <= k < all[i].len() implies all[i][k] != '/' by {
                    if k < last.len() {
                        assert(last[k] != '/');
                    }
                }
            }
        }
    }
}

proof fn lemma_named_shape(segs: Seq<Seq<char>>)
    requires
        forall|i: int| 0 <= i < segs.len() ==> !(#[trigger] segs[i]).contains('/'),
    ensures
        forall|i: int|
            0 <= i < named(segs).len() ==> (#[trigger] named(segs)[i]).len() > 0
                && !named(segs)[i].contains('/'),
    decreases segs.len(),
{
    if segs.len() > 0 {
        let front = segs.drop_last();
        assert forall|i: int| 0 <= i < front.len() implies !(#[trigger] front[i]).contains('/') by {
            assert(front[i] == segs[i]);
        }
        lemma_named_shape(front);
        assert(!segs[segs.len() - 1].contains('/'));
        let all = named(segs);
        let before = named(front);
        assert forall|i: int| 0 <= i < all.len() implies (#[trigger] all[i]).len() > 0
            && !all[i].contains('/') by {
            if i < before.len() {
                assert(all[i] == before[i]);
            }
        }
    }
}

proof fn lemma_component_shape(p: Seq<char>)
    ensures
        component_shape(components(p)),
{
    lemma_segments_no_slash(p);
    lemma_named_shape(segments(p));
    let names = named(segments(p));
    let cs = components(p);
    assert forall|i: int| 0 <= i < cs.len() implies ((#[trigger] cs[i]).len() > 0
        && !cs[i].contains('/')) || (i == 0 && cs[i] == seq!['/']) by {
        if absolute(p) {
            if i > 0 {
                assert(cs[i] == names[i - 1]);
            }
        }
    }
}

proof fn lemma_folded_shape(cs: Seq<Seq<char>>)
    requires
        component_shape(cs),
    ensures
        normal_shape(folded(cs)),
        cs.len() == 0 ==> folded(cs).len() == 0,
    decreases cs.len(),
{
    if cs.len() > 0 {
        let prefix = cs.drop_last();
        assert(component_shape(prefix)) by {
            assert forall|i: int| 0 <= i < prefix.len() implies ((#[trigger] prefix[i]).len() > 0
                && !prefix[i].contains('/')) || (i == 0 && prefix[i] == seq!['/']) by {
                assert(prefix[i] == cs[i]);
            }
        }
        lemma_folded_shape(prefix);
        let front = folded(prefix);
        let c = cs.last();
        assert(cs[cs.len() - 1] == c);
        let all = folded(cs);
        let up = seq!['.', '.'];
        assert(up.len() == 2 && up[0] == '.' && up[1] == '.');
        assert(clean(up)) by {
            assert forall|k: int| 0 <= k < 2 implies up[k] != '/' by {}
            assert(seq!['.'].len() == 1);
        }
        assert forall|i: int| 0 <= i < all.len() implies clean(#[trigger] all[i]) || (i == 0
            && all[i] == seq!['/']) by {
            if i < front.len() {
                assert(all[i] == front[i]);
            }
        }
        assert forall|i: int, j: int|
            0 <= j < i < all.len() && #[trigger] all[i] == up implies #[trigger] all[j] == up by {
            assert(all[j] == front[j]);
            if i < front.len() {
                assert(all[i] == front[i]);
            } else {
                assert(front[front.len() - 1] == up);
            }
        }
    }
}

proof fn lemma_folded_fixed(cs: Seq<Seq<char>>)
    requires
        normal_shape(cs),
    ensures
        folded(cs) == cs,
    decreases cs.len(),
{
    if cs.len() > 0 {
        let prefix = cs.drop_last();
        let up = seq!['.', '.'];
        assert(normal_shape(prefix)) by {
            assert forall|i: int| 0 <= i < prefix.len() implies clean(#[trigger] prefix[i]) || (i == 0
                && prefix[i] == seq!['/']) by {
                assert(prefix[i] == cs[i]);
            }
            assert forall|i: int, j: int|
                0 <= j < i < prefix.len() && #[trigger] prefix[i] == up implies #[trigger] prefix[j]
                == up by {
                assert(prefix[i] == cs[i] && prefix[j] == cs[j]);
            }
        }
        lemma_folded_fixed(prefix);
        let c = cs[cs.len() - 1];
        assert(clean(c) || c == seq!['/']);
        assert(seq!['/'][0] != seq!['.'][0]);
        assert(c != seq!['.']);
        if c == up {
            if prefix.len() > 0 {
                assert(cs[prefix.len() - 1] == up);
                assert(prefix.last() == up);
            }
        }
        assert(cs =~= prefix.push(c));
    } else {
        assert(cs =~= seq![]);
    }
}

proof fn lemma_segments_of_joined(cs: Seq<Seq<char>>)
    requires
        cs.len() > 0,
        forall|i: int| 0 <= i < cs.len() ==> !(#[trigger] cs[i]).contains('/'),
    ensures
        segments(text::joined(cs, seq!['/'])) == cs,
    decreases cs.len(),
{
    let sep = seq!['/'];
    if cs.len() == 1 {
        let none: Seq<char> = seq![];
        lemma_segments_append(none, cs[0]);
        assert(none + cs[0] =~= cs[0]);
        assert(segments(none) =~= seq![none]);
        assert(segments(cs[0]) =~= cs);
    } else {
        let front = cs.drop_last();
        let last = cs.last();
        assert forall|i: int| 0 <= i < front.len() implies !(#[trigger] front[i]).contains('/') by {
            assert(front[i] == cs[i]);
        }
        lemma_segments_of_joined(front);
        let before = text::joined(front, sep);
        let b = before + sep;
        assert(b.drop_last() =~= before);
        assert(b.last() == '/');
        assert(segments(b) == front.push(seq![]));
        assert(!cs[cs.len() - 1].contains('/'));
        lemma_segments_append(b, last);
        assert(segments(b).last() + last =~= last);
        assert(segments(b).drop_last() =~= front);
        assert(cs =~= front.push(last));
    }
}

proof fn lemma_named_clean(cs: Seq<Seq<char>>)
    requires
        forall|i: int| 0 <= i < cs.len() ==> clean(#[trigger] cs[i]),
    ensures
        named(cs) == cs,
    decreases cs.len(),
{
    if cs.len() > 0 {
        let front = cs.drop_last();
        assert forall|i: int| 0 <= i < front.len() implies clean(#[trigger] front[i]) by {
            assert(front[i] == cs[i]);
        }
        lemma_named_clean(front);
        assert(clean(cs[cs.len() - 1]));
        assert(cs =~= front.push(cs.last()));
    } else {
        assert(cs =~= seq![]);
    }
}

proof fn lemma_segments_rooted(x: Seq<char>)
    ensures
        segments(seq!['/'] + x) == seq![Seq::<char>::empty()] + segments(x),
    decreases x.len(),
{
    let whole = seq!['/'] + x;
    let none: Seq<char> = seq![];
    lemma_segments_nonempty(x);
    if x.len() == 0 {
        assert(whole.drop_last() =~= none);
        assert(whole.last() == '/');
        assert(segments(none) =~= seq![none]);
        assert(segments(whole) =~= seq![none] + segments(x));
    } else {
        let y = x.drop_last();
        lemma_segments_nonempty(y);
        lemma_segments_rooted(y);
        assert(whole.drop_last() =~= seq!['/'] + y);
        assert(whole.last() == x.last());
        let fy = seq![none] + segments(y);
        assert(fy.last() == segments(y).last());
        assert(fy.drop_last() =~= seq![none] + segments(y).drop_last());
        assert(segments(whole) =~= seq![none] + segments(x));
    }
}

proof fn lemma_named_rooted(cs: Seq<Seq<char>>)
    requires
        forall|i: int| 0 <= i < cs.len() ==> clean(#[trigger] cs[i]),
    ensures
        named(seq![Seq::<char>::empty()] + cs) == cs,
    decreases cs.len(),
{
    let none: Seq<char> = seq![];
    let all = seq![none] + cs;
    if cs.len() == 0 {
        assert(all =~= seq![none]);
        assert(all.drop_last() =~= seq![]);
        assert(named(all.drop_last()) =~= seq![]);
        assert(named(all) =~= cs);
    } else {
        let front = cs.drop_last();
        assert forall|i: int| 0 <= i < front.len() implies clean(#[trigger] front[i]) by {
            assert(front[i] == cs[i]);
        }
        lemma_named_rooted(front);
        assert(all.drop_last() =~= seq![none] + front);
        assert(all.last() == cs[cs.len() - 1]);
        assert(clean(cs[cs.len() - 1]));
        assert(cs =~= front.push(cs.last()));
    }
}

proof fn lemma_components_of_rendered(cs: Seq<Seq<char>>)
    requires
        normal_shape(cs),
    ensures
        components(rendered(cs)) == cs,
{
    let sep = seq!['/'];
    let none: Seq<char> = seq![];
    if cs.len() == 0 {
        assert(segments(none) =~= seq![none]);
        assert(seq![none].drop_last() =~= seq![]);
        assert(named(seq![none].drop_last()) =~= seq![]);
        assert(named(seq![none]) =~= cs);
    } else if cs[0] == sep {
        let rest = cs.drop_first();
        assert forall|i: int| 0 <= i < rest.len() implies clean(#[trigger] rest[i]) by {
            assert(rest[i] == cs[i + 1]);
        }
        let tail = text::joined(rest, sep);
        let whole = sep + tail;
        assert(rendered(cs) == whole);
        assert(absolute(whole));
        lemma_segments_rooted(tail);
        if rest.len() == 0 {
            assert(tail =~= none);
            let two = seq![none] + segments(none);
            assert(segments(none) =~= seq![none]);
            assert(two.drop_last() =~= seq![none]);
            assert(seq![none].drop_last() =~= seq![]);
            assert(named(seq![none].drop_last()) =~= seq![]);
            assert(named(seq![none]) =~= seq![]);
            assert(named(two) =~= seq![]);
        } else {
            assert forall|i: int| 0 <= i < rest.len() implies !(#[trigger] rest[i]).contains('/') by {
                assert(clean(rest[i]));
            }
            lemma_segments_of_joined(rest);
            lemma_named_rooted(rest);
        }
        assert(components(whole) =~= cs);
    } else {
        assert forall|i: int| 0 <= i < cs.len() implies clean(#[trigger] cs[i]) by {}
        assert forall|i: int| 0 <= i < cs.len() implies !(#[trigger] cs[i]).contains('/') by {
            assert(clean(cs[i]));
        }
        lemma_segments_of_joined(cs);
        lemma_named_clean(cs);
        let whole = text::joined(cs, sep);
        lemma_joined_begins(cs, sep);
        assert(whole.len() > 0 && whole[0] == cs[0][0]);
        assert(clean(cs[0]));
        assert(cs[0].contains(cs[0][0]));
        assert(!absolute(whole));
    }
}

proof fn lemma_joined_begins(cs: Seq<Seq<char>>, sep: Seq<char>)
    requires
        cs.len() > 0,
        cs[0].len() > 0,
    ensures
        text::joined(cs, sep).len() > 0,
        text::joined(cs, sep)[0] == cs[0][0],
    decreases cs.len(),
{
    if cs.len() > 1 {
        assert(cs.drop_last()[0] == cs[0]);
        lemma_joined_begins(cs.drop_last(), sep);
    }
}

/// Normalising a normalised path changes nothing.
pub proof fn normalizing_is_final(p: Seq<char>)
    ensures
        normalized(normalized(p)) == normalized(p),
{
    let cs = components(p);
    lemma_component_shape(p);
    lemma_folded_shape(cs);
    lemma_components_of_rendered(folded(cs));
    lemma_folded_fixed(folded(cs));
}

/// Two paths have one normalised form exactly when the same components are left
/// of them once `.` and `..` are resolved.
pub proof fn normalized_alike(p: Seq<char>, q: Seq<char>)
    ensures
        normalized(p) == normalized(q) <==> folded(components(p)) == folded(components(q)),
{
    lemma_component_shape(p);
    lemma_folded_shape(components(p));
    lemma_components_of_rendered(folded(components(p)));
    lemma_component_shape(q);
    lemma_folded_shape(components(q));
    lemma_components_of_rendered(folded(components(q)));
}

/// A path is absolute exactly when it begins with a separator.
pub proof fn absolute_begins_with_separator(p: &str, r: bool)
    requires
        call_ensures(is_absolute, (p,), r),
    ensures
        r <==> exists|rest: Seq<char>| p@ == #[trigger] (seq!['/'] + rest),
        r == absolute(p@),
{
    if r {
        assert(p@ =~= seq!['/'] + p@.drop_first());
    }
}

/// A joined path ends with what was joined to it. Unless that is absolute, it
/// begins with the base, and one separator stands between them, which may be the
/// base's own.
pub proof fn joining_keeps_both(base: &str, rel: &str, r: String)
    requires
        call_ensures(join, (base, rel), r),
    ensures
        rel@.len() > 0 && rel@[0] == '/' ==> r@ == rel@,
        !(rel@.len() > 0 && rel@[0] == '/') ==> {
            ||| r@ == base@ + rel@ && (base@.len() == 0 || base@.last() == '/')
            ||| r@ == base@ + seq!['/'] + rel@ && base@.len() > 0 && base@.last() != '/'
        },
        r@ == joined(base@, rel@),
{
    assert(base@.push('/') + rel@ =~= base@ + seq!['/'] + rel@);
}

/// A path starts with another exactly when the other's components are its first
/// ones.
pub proof fn prefix_is_of_components(p: &str, base: &str, r: bool)
    requires
        call_ensures(path_starts_with, (p, base), r),
    ensures
        r <==> components(base@).len() <= components(p@).len() && forall|i: int|
            0 <= i < components(base@).len() ==> #[trigger] components(base@)[i] == components(
                p@,
            )[i],
{
    let bs = components(base@);
    let ps = components(p@);
    if bs.len() <= ps.len() && (forall|i: int| 0 <= i < bs.len() ==> #[trigger] bs[i] == ps[i]) {
        assert(bs =~= ps.subrange(0, bs.len() as int));
    }
    if r {
        assert forall|i: int| 0 <= i < bs.len() implies #[trigger] bs[i] == ps[i] by {
            assert(bs[i] == ps.subrange(0, bs.len() as int)[i]);
        }
    }
}

/// The empty path has no component, the root has one, and separators at the end
/// of a path do not count.
pub proof fn separators_do_not_count(p: Seq<char>)
    requires
        p.len() > 0,
    ensures
        components(seq![]) == Seq::<Seq<char>>::empty(),
        components(seq!['/']) == seq![seq!['/']],
        components(p.push('/')) == components(p),
{
    let none: Seq<char> = seq![];
    assert(segments(none) =~= seq![none]);
    assert(seq![none].drop_last() =~= seq![]);
    assert(named(seq![none].drop_last()) =~= seq![]);
    assert(named(seq![none]) =~= seq![]);
    let q = p.push('/');
    assert(q.drop_last() =~= p);
    assert(segments(q) == segments(p).push(none));
    assert(segments(q).drop_last() =~= segments(p));
    assert(named(segments(q)) == named(segments(p)));
    assert(q[0] == p[0]);
    let root = seq!['/'];
    assert(root.drop_last() =~= none);
    assert(segments(root) =~= seq![none, none]);
    assert(seq![none, none].drop_last() =~= seq![none]);
    assert(named(seq![none, none]) =~= seq![]);
    assert(components(root) =~= seq![seq!['/']]);
}

/// Going into a directory and back out again changes nothing.
pub proof fn parent_takes_back(dir: Seq<char>, name: Seq<char>)
    requires
        plain_name(name),
    ensures
        normalized(joined(joined(dir, name), seq!['.', '.'])) == normalized(dir),
{
    let up = seq!['.', '.'];
    assert(!up.contains('/')) by {
        assert forall|i: int| 0 <= i < up.len() implies up[i] != '/' by {}
    }
    assert(up != seq!['.']) by {
        assert(up.len() == 2 && seq!['.'].len() == 1);
    }
    let inner = joined(dir, name);
    join_adds_component(dir, name);
    join_adds_component(inner, up);
    let cs = components(dir);
    assert(cs.push(name).push(up).drop_last() =~= cs.push(name));
    assert(cs.push(name).drop_last() =~= cs);
    assert(name != seq!['/']) by {
        if name == seq!['/'] {
            assert(name[0] == '/');
            assert(name.contains('/'));
        }
    }
    assert(folded(cs.push(name)) == folded(cs).push(name));
    assert(folded(cs).push(name).last() == name);
    assert(folded(cs).push(name).drop_last() =~= folded(cs));
}

proof fn lemma_folded_rooted(cs: Seq<Seq<char>>)
    requires
        cs.len() > 0,
        cs[0] == seq!['/'],
    ensures
        folded(cs).len() > 0,
        folded(cs)[0] == seq!['/'],
    decreases cs.len(),
{
    assert(seq!['/'].len() == 1 && seq!['/'][0] == '/');
    assert(seq!['.'].len() == 1 && seq!['.'][0] == '.');
    assert(seq!['.', '.'].len() == 2);
    if cs.len() == 1 {
        assert(cs.drop_last() =~= seq![]);
        assert(folded(cs.drop_last()) =~= seq![]);
    } else {
        lemma_folded_rooted(cs.drop_last());
        let front = folded(cs.drop_last());
        if front.len() == 1 {
            assert(front.last() == front[0]);
        }
    }
}

/// The normalised form of an absolute path is absolute and never leads upwards,
/// and no normalised path has `.` in it.
pub proof fn normalized_never_leads_up(p: Seq<char>, i: int)
    requires
        0 <= i < components(normalized(p)).len(),
    ensures
        absolute(p) ==> absolute(normalized(p)),
        absolute(p) ==> components(normalized(p))[i] != seq!['.', '.'],
        components(normalized(p))[i] != seq!['.'],
{
    let cs = components(p);
    lemma_component_shape(p);
    lemma_folded_shape(cs);
    let fs = folded(cs);
    lemma_components_of_rendered(fs);
    assert(seq!['/'].len() == 1 && seq!['/'][0] == '/');
    assert(seq!['.'].len() == 1 && seq!['.'][0] == '.');
    assert(seq!['.', '.'].len() == 2);
    if absolute(p) {
        assert(cs[0] == seq!['/']);
        lemma_folded_rooted(cs);
        assert(normalized(p)[0] == '/');
        if fs[i] == seq!['.', '.'] {
            assert(fs[0] == seq!['/']);
            if i > 0 {
                assert(fs[0] == seq!['.', '.']);
            }
        }
    }
    assert(clean(fs[i]) || (i == 0 && fs[i] == seq!['/']));
}

/// The normalised form of a path is what normalising gives.
pub proof fn normalizing_gives_normalized(p: &str, r: String)
    requires
        call_ensures(normalize_lexical, (p,), r),
    ensures
        r@ == normalized(p@),
{
}

/// Each step of a path is taken from where the steps before it lead: a name goes one
/// further down, `..` one back. At the root `..` stays there, and where there is
/// nothing to go back from it leads up.
pub proof fn steps_are_taken_one_by_one(p: Seq<char>, name: Seq<char>)
    ensures
        ({
            let up = seq!['.', '.'];
            let here = components(normalized(p));
            let above = components(normalized(joined(p, up)));
            &&& here.len() == 0 ==> above == seq![up]
            &&& here == seq![seq!['/']] ==> above == here
            &&& here.len() > 0 && here.last() == up ==> above == here.push(up)
            &&& here.len() > 0 && here.last() != up && here.last() != seq!['/'] ==> above
                == here.drop_last()
            &&& plain_name(name) ==> components(normalized(joined(p, name))) == here.push(name)
        }),
{
    let up = seq!['.', '.'];
    assert(up.len() == 2 && up[0] == '.' && up[1] == '.');
    assert(!up.contains('/')) by {
        assert forall|i: int| 0 <= i < up.len() implies up[i] != '/' by {}
    }
    assert(up != seq!['.']) by {
        assert(seq!['.'].len() == 1);
    }
    assert(up != seq!['/']) by {
        assert(seq!['/'].len() == 1);
    }
    let cs = components(p);
    lemma_component_shape(p);
    lemma_folded_shape(cs);
    lemma_components_of_rendered(folded(cs));
    let q = joined(p, up);
    join_adds_component(p, up);
    lemma_component_shape(q);
    lemma_folded_shape(components(q));
    lemma_components_of_rendered(folded(components(q)));
    assert(cs.push(up).drop_last() =~= cs);
    assert(cs.push(up).last() == up);
    let here = folded(cs);
    if here.len() == 0 {
        assert(here.push(up) =~= seq![up]);
    }
    if here == seq![seq!['/']] {
        assert(here.last() == seq!['/']);
    }
    if plain_name(name) {
        let d = joined(p, name);
        join_adds_component(p, name);
        lemma_component_shape(d);
        lemma_folded_shape(components(d));
        lemma_components_of_rendered(folded(components(d)));
        assert(cs.push(name).drop_last() =~= cs);
        assert(cs.push(name).last() == name);
    }
}

} // verus!
