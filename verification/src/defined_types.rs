//! The type definitions that an RPC interface reaches: the structs, enums, unions and
//! type aliases named in its signatures, and, through the fields of the crate's own
//! definitions, every definition those name in turn, leaving out the standard library's.
use vstd::prelude::*;
use crate::collectors::contains_id;

verus! {

/// A type definition (struct, enum or union) as the collector sees it, at its index in
/// the crate's table of definitions: whether a standard library crate defines it,
/// whether the analyzed crate defines it, and the definitions named anywhere in its
/// fields' types, in order, by their index.
pub struct AdtNode {
    pub is_std: bool,
    pub is_local: bool,
    pub field_adts: Vec<u64>,
}

/// A type written in a signature: the definition it names (a struct, enum or union, or
/// the one a type alias stands for), if any, and the types written inside it.
pub struct HirTy {
    pub adt: Option<u64>,
    pub inner: Vec<HirTy>,
}

/// A definition that a walk may enter: one of the table, outside the standard library,
/// and not collected before.
pub open spec fn fresh(g: Seq<AdtNode>, seen: Set<u64>, a: u64) -> bool {
    a < g.len() && !g[a as int].is_std && !seen.contains(a)
}

/// The collector looks into the fields of the crate's own definitions only.
pub open spec fn is_step(g: Seq<AdtNode>, a: u64, b: u64) -> bool {
    a < g.len() && g[a as int].is_local && g[a as int].field_adts@.contains(b)
}

pub open spec fn linked(g: Seq<AdtNode>, p: Seq<u64>, i: int) -> bool {
    is_step(g, p[i], p[i + 1])
}

/// A walk through fresh definitions, each step into a field of the one before.
pub open spec fn is_walk(g: Seq<AdtNode>, seen: Set<u64>, p: Seq<u64>) -> bool {
    &&& p.len() > 0
    &&& forall|i: int| 0 <= i < p.len() ==> #[trigger] fresh(g, seen, p[i])
    &&& forall|i: int| 0 <= i < p.len() - 1 ==> #[trigger] linked(g, p, i)
}

pub open spec fn reaches(g: Seq<AdtNode>, seen: Set<u64>, from: u64, to: u64) -> bool {
    exists|p: Seq<u64>| #[trigger] is_walk(g, seen, p) && p[0] == from && p.last() == to
}

/// The definitions that a visit of the roots adds to those collected before.
pub open spec fn reached(g: Seq<AdtNode>, seen: Set<u64>, roots: Set<u64>) -> Set<u64> {
    Set::new(|y: u64| exists|r: u64| #[trigger] roots.contains(r) && reaches(g, seen, r, y))
}

/// The definitions named anywhere in a written type.
pub open spec fn ty_adts(t: HirTy) -> Set<u64>
    decreases t,
{
    let here = match t.adt {
        Some(a) => set![a],
        None => Set::empty(),
    };
    here + ty_adts_all(t.inner@)
}

pub open spec fn ty_adts_all(ts: Seq<HirTy>) -> Set<u64>
    decreases ts,
{
    if ts.len() == 0 {
        Set::empty()
    } else {
        ty_adts_all(ts.drop_last()) + ty_adts(ts.last())
    }
}

/// How many indices of the table are not collected yet.
pub open spec fn unseen_count(n: nat, s: Set<u64>) -> nat
    decreases n,
{
    if n == 0 {
        0
    } else {
        unseen_count((n - 1) as nat, s) + if s.contains((n - 1) as u64) {
            0nat
        } else {
            1nat
        }
    }
}

proof fn lemma_unseen_mono(n: nat, s: Set<u64>, t: Set<u64>)
    requires
        s.subset_of(t),
        n <= u64::MAX + 1,
    ensures
        unseen_count(n, t) <= unseen_count(n, s),
    decreases n,
{
    if n > 0 {
        lemma_unseen_mono((n - 1) as nat, s, t);
    }
}

proof fn lemma_unseen_drop(n: nat, s: Set<u64>, t: Set<u64>, x: u64)
    requires
        s.insert(x).subset_of(t),
        !s.contains(x),
        x < n,
        n <= u64::MAX + 1,
    ensures
        unseen_count(n, t) < unseen_count(n, s),
    decreases n,
{
    if n - 1 == x {
        lemma_unseen_mono((n - 1) as nat, s, t);
        assert(t.contains((n - 1) as u64));
    } else {
        lemma_unseen_drop((n - 1) as nat, s, t, x);
    }
}

proof fn lemma_walk_weaken(g: Seq<AdtNode>, s: Set<u64>, t: Set<u64>, p: Seq<u64>)
    requires
        s.subset_of(t),
        is_walk(g, t, p),
    ensures
        is_walk(g, s, p),
{
    assert forall|i: int| 0 <= i < p.len() implies #[trigger] fresh(g, s, p[i]) by {
        assert(fresh(g, t, p[i]));
    }
}

proof fn lemma_walk_prepend(g: Seq<AdtNode>, s: Set<u64>, x: u64, p: Seq<u64>)
    requires
        fresh(g, s, x),
        is_walk(g, s, p),
        is_step(g, x, p[0]),
    ensures
        is_walk(g, s, seq![x] + p),
        (seq![x] + p)[0] == x,
        (seq![x] + p).last() == p.last(),
{
    let q = seq![x] + p;
    assert forall|i: int| 0 <= i < q.len() implies #[trigger] fresh(g, s, q[i]) by {
        if i > 0 {
            assert(q[i] == p[i - 1]);
            assert(fresh(g, s, p[i - 1]));
        }
    }
    assert forall|i: int| 0 <= i < q.len() - 1 implies #[trigger] linked(g, q, i) by {
        if i > 0 {
            assert(linked(g, p, i - 1));
            assert(q[i] == p[i - 1] && q[i + 1] == p[i]);
        }
    }
}

proof fn lemma_walk_push(g: Seq<AdtNode>, s: Set<u64>, q: Seq<u64>, y: u64)
    requires
        is_walk(g, s, q),
        fresh(g, s, y),
        is_step(g, q.last(), y),
    ensures
        is_walk(g, s, q.push(y)),
        q.push(y)[0] == q[0],
        q.push(y).last() == y,
{
    let r = q.push(y);
    assert forall|i: int| 0 <= i < r.len() implies #[trigger] fresh(g, s, r[i]) by {
        if i < q.len() {
            assert(fresh(g, s, q[i]));
        }
    }
    assert forall|i: int| 0 <= i < r.len() - 1 implies #[trigger] linked(g, r, i) by {
        if i < q.len() - 1 {
            assert(linked(g, q, i));
        }
    }
}

proof fn lemma_walk_suffix(g: Seq<AdtNode>, s: Set<u64>, p: Seq<u64>, j: int)
    requires
        is_walk(g, s, p),
        0 <= j < p.len(),
    ensures
        is_walk(g, s, p.skip(j)),
        p.skip(j)[0] == p[j],
        p.skip(j).last() == p.last(),
{
    let q = p.skip(j);
    assert forall|i: int| 0 <= i < q.len() implies #[trigger] fresh(g, s, q[i]) by {
        assert(fresh(g, s, p[i + j]));
    }
    assert forall|i: int| 0 <= i < q.len() - 1 implies #[trigger] linked(g, q, i) by {
        assert(linked(g, p, i + j));
    }
}

/// Once a walk from outside the collected set enters the set, which a visit left closed,
/// it stays there.
proof fn lemma_tail_in(g: Seq<AdtNode>, s: Set<u64>, a: Set<u64>, p: Seq<u64>, j: int)
    requires
        is_walk(g, s, p),
        0 <= j < p.len(),
        (s + reached(g, s, a)).contains(p[j]),
    ensures
        (s + reached(g, s, a)).contains(p.last()),
    decreases p.len() - j,
{
    if j < p.len() - 1 {
        assert(fresh(g, s, p[j]));
        assert(reached(g, s, a).contains(p[j]));
        let r = choose|r: u64| #[trigger] a.contains(r) && reaches(g, s, r, p[j]);
        let q = choose|q: Seq<u64>| #[trigger] is_walk(g, s, q) && q[0] == r && q.last() == p[j];
        assert(linked(g, p, j));
        assert(fresh(g, s, p[j + 1]));
        lemma_walk_push(g, s, q, p[j + 1]);
        assert(reaches(g, s, r, p[j + 1]));
        assert(reached(g, s, a).contains(p[j + 1]));
        lemma_tail_in(g, s, a, p, j + 1);
    }
}

/// Visiting roots `b` after roots `a` collects what visiting both at once collects.
pub proof fn lemma_grow(g: Seq<AdtNode>, s: Set<u64>, a: Set<u64>, b: Set<u64>)
    ensures
        (s + reached(g, s, a)) + reached(g, s + reached(g, s, a), b) == s + reached(g, s, a + b),
{
    let t = s + reached(g, s, a);
    let lhs = t + reached(g, t, b);
    let rhs = s + reached(g, s, a + b);
    assert forall|y: u64| lhs.contains(y) implies rhs.contains(y) by {
        if reached(g, t, b).contains(y) && !t.contains(y) {
            let r = choose|r: u64| #[trigger] b.contains(r) && reaches(g, t, r, y);
            let p = choose|p: Seq<u64>| #[trigger] is_walk(g, t, p) && p[0] == r && p.last() == y;
            lemma_walk_weaken(g, s, t, p);
            assert((a + b).contains(r));
        }
        if reached(g, s, a).contains(y) {
            let r = choose|r: u64| #[trigger] a.contains(r) && reaches(g, s, r, y);
            assert((a + b).contains(r));
        }
    }
    assert forall|y: u64| rhs.contains(y) implies lhs.contains(y) by {
        if !s.contains(y) {
            let r = choose|r: u64| #[trigger] (a + b).contains(r) && reaches(g, s, r, y);
            if a.contains(r) {
                assert(reached(g, s, a).contains(y));
            } else {
                let p = choose|p: Seq<u64>| #[trigger] is_walk(g, s, p) && p[0] == r && p.last() == y;
                if exists|j: int| 0 <= j < p.len() && #[trigger] t.contains(p[j]) {
                    let j = choose|j: int| 0 <= j < p.len() && #[trigger] t.contains(p[j]);
                    lemma_tail_in(g, s, a, p, j);
                } else {
                    assert forall|i: int| 0 <= i < p.len() implies #[trigger] fresh(g, t, p[i]) by {
                        assert(fresh(g, s, p[i]));
                        assert(!t.contains(p[i]));
                    }
                    assert(is_walk(g, t, p));
                    assert(reaches(g, t, r, y));
                }
            }
        }
    }
    assert(lhs =~= rhs);
}

/// A root that is not fresh reaches nothing.
proof fn lemma_dead_root(g: Seq<AdtNode>, s: Set<u64>, x: u64)
    requires
        !fresh(g, s, x),
    ensures
        reached(g, s, set![x]) == Set::<u64>::empty(),
{
    assert forall|y: u64| !reached(g, s, set![x]).contains(y) by {
        if reached(g, s, set![x]).contains(y) {
            let r = choose|r: u64| #[trigger] set![x].contains(r) && reaches(g, s, r, y);
            let p = choose|p: Seq<u64>| #[trigger] is_walk(g, s, p) && p[0] == r && p.last() == y;
            assert(fresh(g, s, p[0]));
        }
    }
    assert(reached(g, s, set![x]) =~= Set::<u64>::empty());
}

/// A fresh definition of another crate reaches only itself.
proof fn lemma_leaf_root(g: Seq<AdtNode>, s: Set<u64>, x: u64)
    requires
        fresh(g, s, x),
        !g[x as int].is_local,
    ensures
        s.insert(x) == s + reached(g, s, set![x]),
{
    let one = seq![x];
    assert(is_walk(g, s, one)) by {
        assert forall|i: int| 0 <= i < one.len() implies #[trigger] fresh(g, s, one[i]) by {}
    }
    assert(reaches(g, s, x, x));
    assert(set![x].contains(x));
    assert forall|y: u64| reached(g, s, set![x]).contains(y) implies y == x by {
        let r = choose|r: u64| #[trigger] set![x].contains(r) && reaches(g, s, r, y);
        let p = choose|p: Seq<u64>| #[trigger] is_walk(g, s, p) && p[0] == r && p.last() == y;
        if p.len() > 1 {
            assert(linked(g, p, 0));
        }
    }
    assert(s.insert(x) =~= s + reached(g, s, set![x]));
}

/// A walk from `x` ends at `x` or at what a child of `x` reaches once `x` is collected.
proof fn lemma_from_root(g: Seq<AdtNode>, s: Set<u64>, x: u64, p: Seq<u64>)
    requires
        is_walk(g, s, p),
        p[0] == x,
    ensures
        p.last() == x || reached(g, s.insert(x), g[x as int].field_adts@.to_set()).contains(p.last()),
    decreases p.len(),
{
    if p.len() > 1 {
        let rest = p.skip(1);
        lemma_walk_suffix(g, s, p, 1);
        if exists|i: int| 0 <= i < rest.len() && rest[i] == x {
            let i = choose|i: int| 0 <= i < rest.len() && rest[i] == x;
            lemma_walk_suffix(g, s, p, i + 1);
            lemma_from_root(g, s, x, p.skip(i + 1));
        } else {
            let t = s.insert(x);
            assert forall|i: int| 0 <= i < rest.len() implies #[trigger] fresh(g, t, rest[i]) by {
                assert(fresh(g, s, rest[i]));
            }
            assert forall|i: int| 0 <= i < rest.len() - 1 implies #[trigger] linked(g, rest, i) by {
                assert(linked(g, p, i + 1));
            }
            assert(is_walk(g, t, rest));
            assert(linked(g, p, 0));
            assert(g[x as int].field_adts@.to_set().contains(p[1]));
            assert(reaches(g, t, p[1], p.last()));
        }
    }
}

/// Visiting a fresh definition of the crate collects it, then what each of its field
/// definitions reaches.
proof fn lemma_expand_root(g: Seq<AdtNode>, s: Set<u64>, x: u64)
    requires
        fresh(g, s, x),
        g[x as int].is_local,
    ensures
        s.insert(x) + reached(g, s.insert(x), g[x as int].field_adts@.to_set())
            == s + reached(g, s, set![x]),
{
    let t = s.insert(x);
    let kids = g[x as int].field_adts@.to_set();
    let lhs = t + reached(g, t, kids);
    let rhs = s + reached(g, s, set![x]);
    let one = seq![x];
    assert(is_walk(g, s, one)) by {
        assert forall|i: int| 0 <= i < one.len() implies #[trigger] fresh(g, s, one[i]) by {}
    }
    assert(set![x].contains(x));
    assert(reaches(g, s, x, x));
    assert forall|y: u64| lhs.contains(y) implies rhs.contains(y) by {
        if reached(g, t, kids).contains(y) && !t.contains(y) {
            let c = choose|c: u64| #[trigger] kids.contains(c) && reaches(g, t, c, y);
            let p = choose|p: Seq<u64>| #[trigger] is_walk(g, t, p) && p[0] == c && p.last() == y;
            lemma_walk_weaken(g, s, t, p);
            lemma_walk_prepend(g, s, x, p);
            assert(reaches(g, s, x, y));
        }
    }
    assert forall|y: u64| rhs.contains(y) implies lhs.contains(y) by {
        if !s.contains(y) && y != x {
            let r = choose|r: u64| #[trigger] set![x].contains(r) && reaches(g, s, r, y);
            let p = choose|p: Seq<u64>| #[trigger] is_walk(g, s, p) && p[0] == r && p.last() == y;
            lemma_from_root(g, s, x, p);
        }
    }
    assert(lhs =~= rhs);
}

/// Collects a definition and, through the fields of the crate's own definitions, all
/// that it reaches, skipping the standard library's and those already collected.
fn visit_sty(g: &Vec<AdtNode>, seen: &mut Vec<u64>, x: u64)
    requires
        old(seen)@.no_duplicates(),
    ensures
        final(seen)@.no_duplicates(),
        final(seen)@.to_set() == old(seen)@.to_set() + reached(g@, old(seen)@.to_set(), set![x]),
    decreases unseen_count(g@.len() as nat, old(seen)@.to_set()),
{
    let ghost start = seen@.to_set();
    let n = g.len() as u64;
    if x >= n {
        proof {
            lemma_dead_root(g@, start, x);
            assert(start + Set::<u64>::empty() =~= start);
        }
        return;
    }
    let node = &g[x as usize];
    if node.is_std || contains_id(seen, x) {
        proof {
            lemma_dead_root(g@, start, x);
            assert(start + Set::<u64>::empty() =~= start);
        }
        return;
    }
    let ghost before = seen@;
    seen.push(x);
    proof {
        before.lemma_push_to_set_commute(x);
        assert(seen@ == before.push(x));
        assert forall|a: int, b: int| 0 <= a < b < seen@.len() implies seen@[a] != seen@[b] by {
            if b == seen@.len() - 1 {
                assert(before.contains(seen@[a]));
            }
        }
    }
    if !node.is_local {
        proof {
            lemma_leaf_root(g@, start, x);
        }
        return;
    }
    let ghost t0 = start.insert(x);
    let mut i: usize = 0;
    proof {
        assert(node.field_adts@.take(0).to_set() =~= Set::<u64>::empty());
        assert(reached(g@, t0, Set::<u64>::empty()) =~= Set::<u64>::empty());
        assert(t0 + Set::<u64>::empty() =~= t0);
    }
    while i < node.field_adts.len()
        invariant
            0 <= i <= node.field_adts@.len(),
            n == g@.len(),
            *node == g@[x as int],
            x < g@.len(),
            fresh(g@, start, x),
            t0 == start.insert(x),
            start == old(seen)@.to_set(),
            seen@.no_duplicates(),
            seen@.to_set() == t0 + reached(g@, t0, node.field_adts@.take(i as int).to_set()),
        decreases node.field_adts@.len() - i,
    {
        let c = node.field_adts[i];
        proof {
            assert(t0.subset_of(seen@.to_set()));
            lemma_unseen_drop(g@.len() as nat, start, seen@.to_set(), x);
        }
        visit_sty(g, seen, c);
        proof {
            let a = node.field_adts@.take(i as int).to_set();
            lemma_grow(g@, t0, a, set![c]);
            assert(node.field_adts@.take(i + 1).to_set() =~= a + set![c]) by {
                assert(node.field_adts@.take(i + 1) =~= node.field_adts@.take(i as int).push(c));
                node.field_adts@.take(i as int).lemma_push_to_set_commute(c);
            }
        }
        i = i + 1;
    }
    proof {
        assert(node.field_adts@.take(i as int) =~= node.field_adts@);
        lemma_expand_root(g@, start, x);
    }
}

/// Collects the type definitions that RPC signatures reach, outside the standard library.
pub struct DefinedTypeCollector {
    graph: Vec<AdtNode>,
    adt_defs: Vec<u64>,
}

impl View for DefinedTypeCollector {
    type V = Set<u64>;

    closed spec fn view(&self) -> Set<u64> {
        self.adt_defs@.to_set()
    }
}

proof fn lemma_reached_none(g: Seq<AdtNode>, s: Set<u64>)
    ensures
        s + reached(g, s, Set::<u64>::empty()) == s,
{
    assert(reached(g, s, Set::<u64>::empty()) =~= Set::<u64>::empty());
    assert(s + Set::<u64>::empty() =~= s);
}

impl DefinedTypeCollector {
    /// The list of definitions holds each once.
    pub closed spec fn wf(&self) -> bool {
        self.adt_defs@.no_duplicates()
    }

    /// The crate's table of type definitions.
    pub closed spec fn graph(&self) -> Seq<AdtNode> {
        self.graph@
    }

    /// A collector over the crate's table of type definitions that has collected none.
    pub fn new(graph: Vec<AdtNode>) -> (c: DefinedTypeCollector)
        ensures
            c.wf(),
            c@ == Set::<u64>::empty(),
            c.graph() == graph@,
    {
        let c = DefinedTypeCollector { graph, adt_defs: Vec::new() };
        assert(c@ =~= Set::<u64>::empty());
        c
    }

    /// The definitions collected, each once.
    pub fn adt_defs(self) -> (r: Vec<u64>)
        requires
            self.wf(),
        ensures
            r@.to_set() == self@,
            r@.no_duplicates(),
    {
        self.adt_defs
    }

    /// Collects what a written type reaches: the definitions it names, anywhere within
    /// it, and all that those reach.
    pub fn visit_ty(&mut self, ty: &HirTy)
        requires
            old(self).wf(),
        ensures
            final(self).wf(),
            final(self).graph() == old(self).graph(),
            final(self)@ == old(self)@ + reached(old(self).graph(), old(self)@, ty_adts(*ty)),
        decreases ty,
    {
        let ghost g = self.graph@;
        let ghost s = self@;
        let ghost here = match ty.adt {
            Some(a) => set![a],
            None => Set::<u64>::empty(),
        };
        match ty.adt {
            Some(a) => visit_sty(&self.graph, &mut self.adt_defs, a),
            None => {
                proof {
                    lemma_reached_none(g, s);
                }
            },
        }
        let mut i: usize = 0;
        proof {
            assert(ty_adts_all(ty.inner@.take(0)) =~= Set::<u64>::empty());
            assert(here + Set::<u64>::empty() =~= here);
        }
        while i < ty.inner.len()
            invariant
                0 <= i <= ty.inner@.len(),
                self.wf(),
                self.graph@ == g,
                here == match ty.adt {
                    Some(a) => set![a],
                    None => Set::<u64>::empty(),
                },
                self@ == s + reached(g, s, here + ty_adts_all(ty.inner@.take(i as int))),
            decreases ty.inner@.len() - i,
        {
            proof {
                assert(decreases_to!(*ty => ty.inner@[i as int]));
            }
            self.visit_ty(&ty.inner[i]);
            proof {
                let a = here + ty_adts_all(ty.inner@.take(i as int));
                let b = ty_adts(ty.inner@[i as int]);
                lemma_grow(g, s, a, b);
                assert(ty.inner@.take(i + 1).drop_last() =~= ty.inner@.take(i as int));
                assert(here + ty_adts_all(ty.inner@.take(i + 1)) =~= a + b);
            }
            i = i + 1;
        }
        proof {
            assert(ty.inner@.take(i as int) =~= ty.inner@);
        }
    }
}

/// Every definition collected lies outside the standard library.
pub proof fn law_collected_outside_std(g: Seq<AdtNode>, s: Set<u64>, roots: Set<u64>, y: u64)
    requires
        reached(g, s, roots).contains(y),
    ensures
        y < g.len(),
        !g[y as int].is_std,
{
    let r = choose|r: u64| #[trigger] roots.contains(r) && reaches(g, s, r, y);
    let p = choose|p: Seq<u64>| #[trigger] is_walk(g, s, p) && p[0] == r && p.last() == y;
    assert(fresh(g, s, p[p.len() - 1]));
}

/// Every fresh root is collected.
pub proof fn law_roots_collected(g: Seq<AdtNode>, s: Set<u64>, roots: Set<u64>, r: u64)
    requires
        roots.contains(r),
        fresh(g, s, r),
    ensures
        reached(g, s, roots).contains(r),
{
    let one = seq![r];
    assert(is_walk(g, s, one)) by {
        assert forall|i: int| 0 <= i < one.len() implies #[trigger] fresh(g, s, one[i]) by {}
    }
    assert(reaches(g, s, r, r));
}

/// What a visit collects is closed: each field definition, outside the standard
/// library, of a collected definition of the crate is collected too, so a recursive
/// type is collected whole.
pub proof fn law_collected_closed(
    g: Seq<AdtNode>,
    s: Set<u64>,
    roots: Set<u64>,
    y: u64,
    c: u64,
)
    requires
        reached(g, s, roots).contains(y),
        is_step(g, y, c),
        c < g.len(),
        !g[c as int].is_std,
    ensures
        (s + reached(g, s, roots)).contains(c),
{
    if !s.contains(c) {
        let r = choose|r: u64| #[trigger] roots.contains(r) && reaches(g, s, r, y);
        let p = choose|p: Seq<u64>| #[trigger] is_walk(g, s, p) && p[0] == r && p.last() == y;
        lemma_walk_push(g, s, p, c);
        assert(reaches(g, s, r, c));
    }
}

/// Visiting the same types again collects nothing more.
pub proof fn law_visit_again(g: Seq<AdtNode>, s: Set<u64>, roots: Set<u64>)
    ensures
        (s + reached(g, s, roots)) + reached(g, s + reached(g, s, roots), roots)
            == s + reached(g, s, roots),
{
    lemma_grow(g, s, roots, roots);
    assert(roots + roots =~= roots);
}

/// The order in which types are visited does not change what is collected.
pub proof fn law_visit_order(g: Seq<AdtNode>, s: Set<u64>, a: Set<u64>, b: Set<u64>)
    ensures
        (s + reached(g, s, a)) + reached(g, s + reached(g, s, a), b)
            == (s + reached(g, s, b)) + reached(g, s + reached(g, s, b), a),
{
    lemma_grow(g, s, a, b);
    lemma_grow(g, s, b, a);
    assert(a + b =~= b + a);
}

} // verus!
