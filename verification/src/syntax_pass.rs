//! The build's checks on a service's source, before the compiler resolves it: the
//! types of RPC arguments, and the shape of the service's `impl`.
use vstd::prelude::*;
use crate::idl::{join3, str_eq};
use crate::path::{str_chars, string_from_chars};

verus! {

/// A type as written in the source.
pub enum SynTy {
    /// `&'a T` or `&'a mut T`.
    Ref { lifetime: Option<String>, mutable: bool, ty: Box<SynTy> },
    /// A path, e.g. `std::vec::Vec<u8>`.
    Path(Vec<SynSegment>),
    /// `[T]`.
    Slice(Box<SynTy>),
    /// `[T; N]`, with the source text of `N`.
    Array(Box<SynTy>, String),
    Tuple(Vec<SynTy>),
    /// `self` without a type.
    ImplicitSelf,
    /// Any other type, as the source writes it.
    Other(String),
}

/// A segment of a path, with its generic type arguments.
pub struct SynSegment {
    pub ident: String,
    pub args: Vec<SynTy>,
}

/// The model of a `SynTy`.
pub enum SynTyV {
    Ref { lifetime: Option<Seq<char>>, mutable: bool, ty: Box<SynTyV> },
    Path(Seq<(Seq<char>, Seq<SynTyV>)>),
    Slice(Box<SynTyV>),
    Array(Box<SynTyV>, Seq<char>),
    Tuple(Seq<SynTyV>),
    ImplicitSelf,
    Other(Seq<char>),
}

pub open spec fn syn_view(t: SynTy) -> SynTyV
    decreases t,
{
    match t {
        SynTy::Ref { lifetime, mutable, ty } => SynTyV::Ref {
            lifetime: match lifetime {
                Some(l) => Some(l@),
                None => None,
            },
            mutable,
            ty: Box::new(syn_view(*ty)),
        },
        SynTy::Path(segs) => SynTyV::Path(seg_views(segs@)),
        SynTy::Slice(t) => SynTyV::Slice(Box::new(syn_view(*t))),
        SynTy::Array(t, n) => SynTyV::Array(Box::new(syn_view(*t)), n@),
        SynTy::Tuple(ts) => SynTyV::Tuple(syn_views(ts@)),
        SynTy::ImplicitSelf => SynTyV::ImplicitSelf,
        SynTy::Other(s) => SynTyV::Other(s@),
    }
}

pub open spec fn syn_views(ts: Seq<SynTy>) -> Seq<SynTyV>
    decreases ts,
{
    if ts.len() == 0 {
        seq![]
    } else {
        syn_views(ts.drop_last()).push(syn_view(ts.last()))
    }
}

pub open spec fn seg_views(segs: Seq<SynSegment>) -> Seq<(Seq<char>, Seq<SynTyV>)>
    decreases segs,
{
    if segs.len() == 0 {
        seq![]
    } else {
        seg_views(segs.drop_last()).push((segs.last().ident@, syn_views(segs.last().args@)))
    }
}

impl View for SynTy {
    type V = SynTyV;

    open spec fn view(&self) -> SynTyV {
        syn_view(*self)
    }
}

// ---------------------------------------------------------------- printing

/// Items joined by `", "`.
pub open spec fn join_comma(items: Seq<Seq<char>>) -> Seq<char>
    decreases items.len(),
{
    if items.len() == 0 {
        seq![]
    } else if items.len() == 1 {
        items[0]
    } else {
        join_comma(items.drop_last()) + ", "@ + items.last()
    }
}

/// Path segments joined by `"::"`, each with its arguments in angle brackets.
pub open spec fn print_segments(segs: Seq<(Seq<char>, Seq<SynTyV>)>) -> Seq<char>
    decreases segs,
{
    if segs.len() == 0 {
        seq![]
    } else {
        let last = segs.last();
        let shown = if last.1.len() == 0 {
            last.0
        } else {
            last.0 + "<"@ + join_comma(print_all(last.1)) + ">"@
        };
        if segs.len() == 1 {
            shown
        } else {
            print_segments(segs.drop_last()) + "::"@ + shown
        }
    }
}

pub open spec fn print_all(ts: Seq<SynTyV>) -> Seq<Seq<char>>
    decreases ts,
{
    if ts.len() == 0 {
        seq![]
    } else {
        print_all(ts.drop_last()).push(print_ty(ts.last()))
    }
}

/// How a type is written back: `&'a mut T`, `a::b<T, U>`, `[T]`, `[T; N]`,
/// `(A, B)` (and `(A,)` for one element), `self`.
pub open spec fn print_ty(t: SynTyV) -> Seq<char>
    decreases t,
{
    match t {
        SynTyV::Ref { lifetime, mutable, ty } => "&"@ + match lifetime {
            Some(l) => l + " "@,
            None => seq![],
        } + if mutable {
            "mut "@
        } else {
            seq![]
        } + print_ty(*ty),
        SynTyV::Path(segs) => print_segments(segs),
        SynTyV::Slice(t) => "["@ + print_ty(*t) + "]"@,
        SynTyV::Array(t, n) => "["@ + print_ty(*t) + "; "@ + n + "]"@,
        SynTyV::Tuple(ts) => "("@ + join_comma(print_all(ts)) + if ts.len() == 1 {
            ","@
        } else {
            seq![]
        } + ")"@,
        SynTyV::ImplicitSelf => "self"@,
        SynTyV::Other(s) => s,
    }
}

pub(crate) fn push_str(out: &mut Vec<char>, s: &str)
    ensures
        final(out)@ == old(out)@ + s@,
{
    let cs = str_chars(s);
    let mut i: usize = 0;
    let ghost base = out@;
    while i < cs.len()
        invariant
            0 <= i <= cs@.len(),
            cs@ == s@,
            out@ == base + cs@.take(i as int),
        decreases cs@.len() - i,
    {
        out.push(cs[i]);
        i = i + 1;
        assert(out@ =~= base + cs@.take(i as int));
    }
    assert(cs@.take(i as int) =~= cs@);
}

proof fn lemma_print_all(ts: Seq<SynTyV>)
    ensures
        print_all(ts).len() == ts.len(),
        forall|k: int| 0 <= k < ts.len() ==> #[trigger] print_all(ts)[k] == print_ty(ts[k]),
    decreases ts.len(),
{
    if ts.len() > 0 {
        lemma_print_all(ts.drop_last());
    }
}

proof fn lemma_syn_views(ts: Seq<SynTy>)
    ensures
        syn_views(ts).len() == ts.len(),
        forall|k: int| 0 <= k < ts.len() ==> #[trigger] syn_views(ts)[k] == syn_view(ts[k]),
    decreases ts.len(),
{
    if ts.len() > 0 {
        lemma_syn_views(ts.drop_last());
    }
}

proof fn lemma_seg_views(segs: Seq<SynSegment>)
    ensures
        seg_views(segs).len() == segs.len(),
        forall|k: int|
            0 <= k < segs.len() ==> #[trigger] seg_views(segs)[k] == (segs[k].ident@, syn_views(
                segs[k].args@,
            )),
    decreases segs.len(),
{
    if segs.len() > 0 {
        lemma_seg_views(segs.drop_last());
    }
}

/// Writes types one after another, separated by `", "`.
fn print_list(ts: &Vec<SynTy>, out: &mut Vec<char>)
    ensures
        final(out)@ == old(out)@ + join_comma(print_all(syn_views(ts@))),
    decreases ts,
{
    let ghost base = out@;
    let ghost vs = syn_views(ts@);
    proof {
        lemma_syn_views(ts@);
    }
    let mut i: usize = 0;
    while i < ts.len()
        invariant
            0 <= i <= ts@.len(),
            vs == syn_views(ts@),
            vs.len() == ts@.len(),
            forall|k: int| 0 <= k < ts@.len() ==> #[trigger] vs[k] == syn_view(ts@[k]),
            out@ == base + join_comma(print_all(vs.take(i as int))),
        decreases ts@.len() - i,
    {
        proof {
            assert(vs.take(i + 1).drop_last() =~= vs.take(i as int));
            lemma_print_all(vs.take(i as int));
            lemma_print_all(vs.take(i + 1));
        }
        if i > 0 {
            push_str(out, ", ");
        }
        print_into(&ts[i], out);
        proof {
            assert(vs.take(i + 1).last() == syn_view(ts@[i as int]));
            if i == 0 {
                assert(print_all(vs.take(1)) =~= seq![print_ty(syn_view(ts@[0]))]);
                assert(out@ =~= base + join_comma(print_all(vs.take(i + 1))));
            } else {
                assert(print_all(vs.take(i + 1)).drop_last() =~= print_all(vs.take(i as int)));
                assert(out@ =~= base + join_comma(print_all(vs.take(i + 1))));
            }
        }
        i = i + 1;
    }
    assert(vs.take(i as int) =~= vs);
}

/// Writes a type back as the source would.
fn print_into(ty: &SynTy, out: &mut Vec<char>)
    ensures
        final(out)@ == old(out)@ + print_ty(ty@),
    decreases ty,
{
    let ghost base = out@;
    match ty {
        SynTy::Ref { lifetime, mutable, ty: inner } => {
            push_str(out, "&");
            match lifetime {
                Some(l) => {
                    push_str(out, l.as_str());
                    push_str(out, " ");
                },
                None => {},
            }
            if *mutable {
                push_str(out, "mut ");
            }
            print_into(inner, out);
            assert(out@ =~= base + print_ty(ty@));
        },
        SynTy::Path(segs) => {
            let ghost sv = seg_views(segs@);
            proof {
                lemma_seg_views(segs@);
            }
            let mut i: usize = 0;
            while i < segs.len()
                invariant
                    *ty == SynTy::Path(*segs),
                    0 <= i <= segs@.len(),
                    sv == seg_views(segs@),
                    sv.len() == segs@.len(),
                    forall|k: int|
                        0 <= k < segs@.len() ==> #[trigger] sv[k] == (segs@[k].ident@, syn_views(
                            segs@[k].args@,
                        )),
                    out@ == base + print_segments(sv.take(i as int)),
                decreases segs@.len() - i,
            {
                proof {
                    assert(sv.take(i + 1).drop_last() =~= sv.take(i as int));
                    assert(sv.take(i + 1).last() == sv[i as int]);
                }
                if i > 0 {
                    push_str(out, "::");
                }
                push_str(out, segs[i].ident.as_str());
                if segs[i].args.len() > 0 {
                    push_str(out, "<");
                    proof {
                        let seg = segs@[i as int];
                        assert(*ty == SynTy::Path(*segs));
                        assert(decreases_to!(*ty => (*ty)->Path_0));
                        assert(decreases_to!(*segs => segs@));
                        assert(decreases_to!(segs@ => seg));
                        assert(decreases_to!(seg => seg.args));
                        assert(decreases_to!(*ty => segs@[i as int].args));
                    }
                    print_list(&segs[i].args, out);
                    push_str(out, ">");
                }
                proof {
                    lemma_syn_views(segs@[i as int].args@);
                    assert(out@ =~= base + print_segments(sv.take(i + 1)));
                }
                i = i + 1;
            }
            assert(sv.take(i as int) =~= sv);
        },
        SynTy::Slice(inner) => {
            push_str(out, "[");
            print_into(inner, out);
            push_str(out, "]");
            assert(out@ =~= base + print_ty(ty@));
        },
        SynTy::Array(inner, n) => {
            push_str(out, "[");
            print_into(inner, out);
            push_str(out, "; ");
            push_str(out, n.as_str());
            push_str(out, "]");
            assert(out@ =~= base + print_ty(ty@));
        },
        SynTy::Tuple(ts) => {
            push_str(out, "(");
            print_list(ts, out);
            proof {
                lemma_syn_views(ts@);
            }
            if ts.len() == 1 {
                push_str(out, ",");
            }
            push_str(out, ")");
            assert(out@ =~= base + print_ty(ty@));
        },
        SynTy::ImplicitSelf => {
            push_str(out, "self");
        },
        SynTy::Other(s) => {
            push_str(out, s.as_str());
        },
    }
}

/// The source text of a type.
pub fn ty_to_string(ty: &SynTy) -> (r: String)
    ensures
        r@ == print_ty(ty@),
{
    let mut out: Vec<char> = Vec::new();
    print_into(ty, &mut out);
    assert(out@ =~= print_ty(ty@));
    string_from_chars(out.as_slice())
}

// ---------------------------------------------------------------- references in argument types

/// Whether a type holds a reference anywhere.
pub open spec fn has_ref(t: SynTyV) -> bool
    decreases t,
{
    match t {
        SynTyV::Ref { .. } => true,
        SynTyV::Path(segs) => segs_have_ref(segs),
        SynTyV::Slice(e) => has_ref(*e),
        SynTyV::Array(e, _) => has_ref(*e),
        SynTyV::Tuple(ts) => any_has_ref(ts),
        _ => false,
    }
}

pub open spec fn any_has_ref(ts: Seq<SynTyV>) -> bool
    decreases ts,
{
    if ts.len() == 0 {
        false
    } else {
        any_has_ref(ts.drop_last()) || has_ref(ts.last())
    }
}

pub open spec fn segs_have_ref(segs: Seq<(Seq<char>, Seq<SynTyV>)>) -> bool
    decreases segs,
{
    if segs.len() == 0 {
        false
    } else {
        segs_have_ref(segs.drop_last()) || any_has_ref(segs.last().1)
    }
}

fn list_has_ref(ts: &Vec<SynTy>) -> (r: bool)
    ensures
        r == any_has_ref(syn_views(ts@)),
    decreases ts,
{
    let ghost vs = syn_views(ts@);
    proof {
        lemma_syn_views(ts@);
    }
    let mut i: usize = 0;
    let mut found = false;
    while i < ts.len()
        invariant
            0 <= i <= ts@.len(),
            vs == syn_views(ts@),
            vs.len() == ts@.len(),
            forall|k: int| 0 <= k < ts@.len() ==> #[trigger] vs[k] == syn_view(ts@[k]),
            found == any_has_ref(vs.take(i as int)),
        decreases ts@.len() - i,
    {
        proof {
            assert(vs.take(i + 1).drop_last() =~= vs.take(i as int));
        }
        let here = type_has_ref(&ts[i]);
        found = found || here;
        i = i + 1;
    }
    assert(vs.take(i as int) =~= vs);
    found
}

/// Whether a type holds a reference anywhere.
fn type_has_ref(ty: &SynTy) -> (r: bool)
    ensures
        r == has_ref(ty@),
    decreases ty,
{
    match ty {
        SynTy::Ref { .. } => true,
        SynTy::Path(segs) => {
            let ghost sv = seg_views(segs@);
            proof {
                lemma_seg_views(segs@);
            }
            let mut i: usize = 0;
            let mut found = false;
            while i < segs.len()
                invariant
                    *ty == SynTy::Path(*segs),
                    0 <= i <= segs@.len(),
                    sv == seg_views(segs@),
                    sv.len() == segs@.len(),
                    forall|k: int|
                        0 <= k < segs@.len() ==> #[trigger] sv[k] == (segs@[k].ident@, syn_views(
                            segs@[k].args@,
                        )),
                    found == segs_have_ref(sv.take(i as int)),
                decreases segs@.len() - i,
            {
                proof {
                    assert(sv.take(i + 1).drop_last() =~= sv.take(i as int));
                    let seg = segs@[i as int];
                    assert(decreases_to!(*ty => (*ty)->Path_0));
                    assert(decreases_to!(*segs => segs@));
                    assert(decreases_to!(segs@ => seg));
                    assert(decreases_to!(seg => seg.args));
                }
                let here = list_has_ref(&segs[i].args);
                found = found || here;
                i = i + 1;
            }
            assert(sv.take(i as int) =~= sv);
            found
        },
        SynTy::Slice(e) => type_has_ref(e),
        SynTy::Array(e, _) => type_has_ref(e),
        SynTy::Tuple(ts) => list_has_ref(ts),
        _ => false,
    }
}

/// Looks for references in a type.
pub struct RefChecker {
    pub has_ref: bool,
}

impl RefChecker {
    /// A checker that has found nothing yet.
    pub fn new() -> (c: RefChecker)
        ensures
            !c.has_ref,
    {
        RefChecker { has_ref: false }
    }

    /// Notes whether the type holds a reference.
    pub fn visit_ty(&mut self, ty: &SynTy)
        ensures
            final(self).has_ref == (old(self).has_ref || has_ref(ty@)),
    {
        if type_has_ref(ty) {
            self.has_ref = true;
        }
    }
}

/// `String`.
pub open spec fn string_ty() -> SynTyV {
    SynTyV::Path(seq![("String"@, Seq::<SynTyV>::empty())])
}

/// Whether a type is a path whose last segment is `str`.
pub open spec fn is_str_path(t: SynTyV) -> bool {
    t matches SynTyV::Path(segs) && segs.len() > 0 && segs.last().0 == "str"@
}

/// The owned counterpart of a type: a reference to a `str` is a `String`, a reference
/// to a slice is a `Vec` of its (owned) elements, and the types inside any other type
/// are made owned in turn (other references stay).
pub open spec fn deborrow(t: SynTyV) -> SynTyV
    decreases t,
{
    match t {
        SynTyV::Ref { lifetime, mutable, ty } => if is_str_path(*ty) {
            string_ty()
        } else {
            match *ty {
                SynTyV::Slice(e) => SynTyV::Path(seq![("Vec"@, seq![deborrow(*e)])]),
                _ => SynTyV::Ref { lifetime, mutable, ty: Box::new(deborrow(*ty)) },
            }
        },
        SynTyV::Path(segs) => SynTyV::Path(deborrow_segs(segs)),
        SynTyV::Slice(e) => SynTyV::Slice(Box::new(deborrow(*e))),
        SynTyV::Array(e, n) => SynTyV::Array(Box::new(deborrow(*e)), n),
        SynTyV::Tuple(ts) => SynTyV::Tuple(deborrow_all(ts)),
        _ => t,
    }
}

pub open spec fn deborrow_all(ts: Seq<SynTyV>) -> Seq<SynTyV>
    decreases ts,
{
    if ts.len() == 0 {
        seq![]
    } else {
        deborrow_all(ts.drop_last()).push(deborrow(ts.last()))
    }
}

pub open spec fn deborrow_segs(segs: Seq<(Seq<char>, Seq<SynTyV>)>) -> Seq<(Seq<char>, Seq<SynTyV>)>
    decreases segs,
{
    if segs.len() == 0 {
        seq![]
    } else {
        deborrow_segs(segs.drop_last()).push((segs.last().0, deborrow_all(segs.last().1)))
    }
}

fn word_string(w: &str) -> (r: String)
    ensures
        r@ == w@,
{
    string_from_chars(str_chars(w).as_slice())
}

fn deborrowed_list(ts: &Vec<SynTy>) -> (r: Vec<SynTy>)
    ensures
        syn_views(r@) == deborrow_all(syn_views(ts@)),
    decreases ts,
{
    let ghost vs = syn_views(ts@);
    proof {
        lemma_syn_views(ts@);
    }
    let mut out: Vec<SynTy> = Vec::new();
    let mut i: usize = 0;
    while i < ts.len()
        invariant
            0 <= i <= ts@.len(),
            vs == syn_views(ts@),
            vs.len() == ts@.len(),
            forall|k: int| 0 <= k < ts@.len() ==> #[trigger] vs[k] == syn_view(ts@[k]),
            syn_views(out@) == deborrow_all(vs.take(i as int)),
        decreases ts@.len() - i,
    {
        proof {
            assert(vs.take(i + 1).drop_last() =~= vs.take(i as int));
        }
        let d = deborrowed(&ts[i]);
        let ghost before = out@;
        out.push(d);
        assert(out@.drop_last() =~= before);
        i = i + 1;
    }
    assert(vs.take(i as int) =~= vs);
    out
}

/// The owned counterpart of a type (see `deborrow`).
fn deborrowed(ty: &SynTy) -> (r: SynTy)
    ensures
        r@ == deborrow(ty@),
    decreases ty,
{
    match ty {
        SynTy::Ref { lifetime, mutable, ty: inner } => {
            let is_str = match &**inner {
                SynTy::Path(segs) => {
                    proof {
                        lemma_seg_views(segs@);
                        assert(syn_view(**inner) == SynTyV::Path(seg_views(segs@)));
                    }
                    segs.len() > 0 && str_eq(segs[segs.len() - 1].ident.as_str(), "str")
                },
                _ => false,
            };
            assert(is_str == is_str_path(syn_view(**inner)));
            if is_str {
                let seg = SynSegment { ident: word_string("String"), args: Vec::new() };
                let ghost sg = seg;
                let mut v: Vec<SynSegment> = Vec::new();
                v.push(seg);
                assert(v@ =~= seq![sg]);
                let r = SynTy::Path(v);
                proof {
                    assert(syn_views(seg.args@) =~= Seq::<SynTyV>::empty());
                    assert(seq![seg].drop_last() =~= Seq::<SynSegment>::empty());
                    assert(seg_views(Seq::<SynSegment>::empty()) =~= Seq::<(Seq<char>, Seq<SynTyV>)>::empty());
                    assert(seq![seg].last() == seg);
                    assert(seg_views(seq![seg]) =~= seq![("String"@, Seq::<SynTyV>::empty())]);
                    assert(r@ == string_ty());
                }
                return r;
            }
            match &**inner {
                SynTy::Slice(e) => {
                    let de = deborrowed(e);
                    let ghost dv = de;
                    let mut args: Vec<SynTy> = Vec::new();
                    args.push(de);
                    assert(args@ =~= seq![dv]);
                    let seg = SynSegment { ident: word_string("Vec"), args };
                    let ghost sg = seg;
                    let mut v: Vec<SynSegment> = Vec::new();
                    v.push(seg);
                    assert(v@ =~= seq![sg]);
                    let r = SynTy::Path(v);
                    proof {
                        assert(seq![dv].drop_last() =~= Seq::<SynTy>::empty());
                        assert(syn_views(Seq::<SynTy>::empty()) =~= Seq::<SynTyV>::empty());
                        assert(syn_views(sg.args@) =~= seq![dv@]);
                        assert(seq![sg].drop_last() =~= Seq::<SynSegment>::empty());
                        assert(seg_views(Seq::<SynSegment>::empty()) =~= Seq::<(Seq<char>, Seq<SynTyV>)>::empty());
                        assert(seq![sg].last() == sg);
                        assert(seg_views(seq![sg]) =~= seq![("Vec"@, seq![dv@])]);
                        assert(syn_view(**inner) == SynTyV::Slice(Box::new(syn_view(**e))));
                        assert(r@ == deborrow(ty@));
                    }
                    r
                },
                _ => {
                    let lt = match lifetime {
                        Some(l) => Some(l.clone()),
                        None => None,
                    };
                    SynTy::Ref { lifetime: lt, mutable: *mutable, ty: Box::new(deborrowed(inner)) }
                },
            }
        },
        SynTy::Path(segs) => {
            let ghost sv = seg_views(segs@);
            proof {
                lemma_seg_views(segs@);
            }
            let mut out: Vec<SynSegment> = Vec::new();
            let mut i: usize = 0;
            while i < segs.len()
                invariant
                    *ty == SynTy::Path(*segs),
                    0 <= i <= segs@.len(),
                    sv == seg_views(segs@),
                    sv.len() == segs@.len(),
                    forall|k: int|
                        0 <= k < segs@.len() ==> #[trigger] sv[k] == (segs@[k].ident@, syn_views(
                            segs@[k].args@,
                        )),
                    seg_views(out@) == deborrow_segs(sv.take(i as int)),
                decreases segs@.len() - i,
            {
                proof {
                    assert(sv.take(i + 1).drop_last() =~= sv.take(i as int));
                    let seg = segs@[i as int];
                    assert(decreases_to!(*ty => (*ty)->Path_0));
                    assert(decreases_to!(*segs => segs@));
                    assert(decreases_to!(segs@ => seg));
                    assert(decreases_to!(seg => seg.args));
                }
                let args = deborrowed_list(&segs[i].args);
                let seg = SynSegment { ident: segs[i].ident.clone(), args };
                let ghost before = out@;
                out.push(seg);
                assert(out@.drop_last() =~= before);
                i = i + 1;
            }
            assert(sv.take(i as int) =~= sv);
            SynTy::Path(out)
        },
        SynTy::Slice(e) => SynTy::Slice(Box::new(deborrowed(e))),
        SynTy::Array(e, n) => SynTy::Array(Box::new(deborrowed(e)), n.clone()),
        SynTy::Tuple(ts) => SynTy::Tuple(deborrowed_list(ts)),
        SynTy::ImplicitSelf => SynTy::ImplicitSelf,
        SynTy::Other(s) => SynTy::Other(s.clone()),
    }
}

proof fn lemma_deborrow_segs_names(segs: Seq<(Seq<char>, Seq<SynTyV>)>)
    ensures
        deborrow_segs(segs).len() == segs.len(),
        forall|k: int| 0 <= k < segs.len() ==> #[trigger] deborrow_segs(segs)[k].0 == segs[k].0,
    decreases segs.len(),
{
    if segs.len() > 0 {
        lemma_deborrow_segs_names(segs.drop_last());
    }
}

/// The owned counterpart of a type is a slice, or a path ending in `str`, only where
/// the type itself is one.
proof fn lemma_deborrow_keeps_kind(t: SynTyV)
    ensures
        is_str_path(deborrow(t)) ==> is_str_path(t),
        deborrow(t) is Slice ==> t is Slice,
{
    match t {
        SynTyV::Path(segs) => {
            lemma_deborrow_segs_names(segs);
            if segs.len() > 0 {
                assert(deborrow_segs(segs).last().0 == segs.last().0);
            }
        },
        SynTyV::Ref { ty, .. } => {
            if !is_str_path(*ty) {
                match *ty {
                    SynTyV::Slice(e) => {
                        assert(seq![("Vec"@, seq![deborrow(*e)])].last().0 == "Vec"@);
                        assert("Vec"@ != "str"@) by {
                            reveal_strlit("Vec");
                            reveal_strlit("str");
                            assert("Vec"@[0] != "str"@[0]);
                        }
                    },
                    _ => {},
                }
            } else {
                assert(string_ty()->Path_0.last().0 == "String"@);
                assert("String"@ != "str"@) by {
                    reveal_strlit("String");
                    reveal_strlit("str");
                }
            }
        },
        _ => {},
    }
}

proof fn lemma_deborrow_all_stable(ts: Seq<SynTyV>)
    ensures
        deborrow_all(deborrow_all(ts)) == deborrow_all(ts),
    decreases ts,
{
    if ts.len() > 0 {
        let d = deborrow_all(ts);
        lemma_deborrow_all_stable(ts.drop_last());
        law_deborrow_stable(ts.last());
        assert(d.drop_last() =~= deborrow_all(ts.drop_last()));
    }
}

proof fn lemma_deborrow_segs_stable(segs: Seq<(Seq<char>, Seq<SynTyV>)>)
    ensures
        deborrow_segs(deborrow_segs(segs)) == deborrow_segs(segs),
    decreases segs,
{
    if segs.len() > 0 {
        let d = deborrow_segs(segs);
        lemma_deborrow_segs_stable(segs.drop_last());
        assert(decreases_to!(segs => segs.last()));
        lemma_deborrow_all_stable(segs.last().1);
        assert(d.drop_last() =~= deborrow_segs(segs.drop_last()));
    }
}

/// The suggested owned type is stable: rewriting it again changes nothing, so a build
/// that takes the suggestion is not offered another.
pub proof fn law_deborrow_stable(t: SynTyV)
    ensures
        deborrow(deborrow(t)) == deborrow(t),
    decreases t,
{
    match t {
        SynTyV::Ref { lifetime, mutable, ty } => {
            if is_str_path(*ty) {
                let segs = seq![("String"@, Seq::<SynTyV>::empty())];
                assert(segs.drop_last() =~= Seq::<(Seq<char>, Seq<SynTyV>)>::empty());
                assert(deborrow_segs(Seq::<(Seq<char>, Seq<SynTyV>)>::empty()) =~= Seq::<(Seq<char>, Seq<SynTyV>)>::empty());
                assert(deborrow_all(Seq::<SynTyV>::empty()) =~= Seq::<SynTyV>::empty());
                assert(deborrow_segs(segs) =~= segs);
            } else {
                match *ty {
                    SynTyV::Slice(e) => {
                        law_deborrow_stable(*e);
                        let args = seq![deborrow(*e)];
                        assert(args.drop_last() =~= Seq::<SynTyV>::empty());
                        assert(deborrow_all(Seq::<SynTyV>::empty()) =~= Seq::<SynTyV>::empty());
                        assert(deborrow_all(args) =~= args);
                        let segs = seq![("Vec"@, args)];
                        assert(segs.drop_last() =~= Seq::<(Seq<char>, Seq<SynTyV>)>::empty());
                        assert(deborrow_segs(Seq::<(Seq<char>, Seq<SynTyV>)>::empty()) =~= Seq::<(Seq<char>, Seq<SynTyV>)>::empty());
                        assert(deborrow_segs(segs) =~= segs);
                    },
                    _ => {
                        law_deborrow_stable(*ty);
                        lemma_deborrow_keeps_kind(*ty);
                    },
                }
            }
        },
        SynTyV::Path(segs) => lemma_deborrow_segs_stable(segs),
        SynTyV::Slice(e) => law_deborrow_stable(*e),
        SynTyV::Array(e, _) => law_deborrow_stable(*e),
        SynTyV::Tuple(ts) => lemma_deborrow_all_stable(ts),
        _ => {},
    }
}

/// Rewrites a type into its owned counterpart.
pub struct Deborrower;

impl Deborrower {
    /// Rewrites `ty` into its owned counterpart: `&str` into `String`, `&[T]` into
    /// `Vec<T>`, throughout.
    pub fn visit_ty(&mut self, ty: &mut SynTy)
        ensures
            final(ty)@ == deborrow(old(ty)@),
    {
        let d = deborrowed(ty);
        *ty = d;
    }
}

// ---------------------------------------------------------------- copies

fn copy_list(ts: &Vec<SynTy>) -> (r: Vec<SynTy>)
    ensures
        syn_views(r@) == syn_views(ts@),
    decreases ts,
{
    let ghost vs = syn_views(ts@);
    proof {
        lemma_syn_views(ts@);
    }
    let mut out: Vec<SynTy> = Vec::new();
    let mut i: usize = 0;
    while i < ts.len()
        invariant
            0 <= i <= ts@.len(),
            vs == syn_views(ts@),
            vs.len() == ts@.len(),
            forall|k: int| 0 <= k < ts@.len() ==> #[trigger] vs[k] == syn_view(ts@[k]),
            syn_views(out@) == vs.take(i as int),
        decreases ts@.len() - i,
    {
        let c = copy_ty(&ts[i]);
        let ghost before = out@;
        out.push(c);
        assert(out@.drop_last() =~= before);
        assert(syn_views(out@) =~= vs.take(i + 1));
        i = i + 1;
    }
    assert(vs.take(i as int) =~= vs);
    out
}

/// A copy of a type.
pub fn copy_ty(ty: &SynTy) -> (r: SynTy)
    ensures
        r@ == ty@,
    decreases ty,
{
    match ty {
        SynTy::Ref { lifetime, mutable, ty: inner } => {
            let lt = match lifetime {
                Some(l) => Some(l.clone()),
                None => None,
            };
            SynTy::Ref { lifetime: lt, mutable: *mutable, ty: Box::new(copy_ty(inner)) }
        },
        SynTy::Path(segs) => {
            let ghost sv = seg_views(segs@);
            proof {
                lemma_seg_views(segs@);
            }
            let mut out: Vec<SynSegment> = Vec::new();
            let mut i: usize = 0;
            while i < segs.len()
                invariant
                    *ty == SynTy::Path(*segs),
                    0 <= i <= segs@.len(),
                    sv == seg_views(segs@),
                    sv.len() == segs@.len(),
                    forall|k: int|
                        0 <= k < segs@.len() ==> #[trigger] sv[k] == (segs@[k].ident@, syn_views(
                            segs@[k].args@,
                        )),
                    seg_views(out@) == sv.take(i as int),
                decreases segs@.len() - i,
            {
                proof {
                    let seg = segs@[i as int];
                    assert(decreases_to!(*ty => (*ty)->Path_0));
                    assert(decreases_to!(*segs => segs@));
                    assert(decreases_to!(segs@ => seg));
                    assert(decreases_to!(seg => seg.args));
                }
                let args = copy_list(&segs[i].args);
                let seg = SynSegment { ident: segs[i].ident.clone(), args };
                let ghost before = out@;
                out.push(seg);
                assert(out@.drop_last() =~= before);
                assert(seg_views(out@) =~= sv.take(i + 1));
                i = i + 1;
            }
            assert(sv.take(i as int) =~= sv);
            SynTy::Path(out)
        },
        SynTy::Slice(e) => SynTy::Slice(Box::new(copy_ty(e))),
        SynTy::Array(e, n) => SynTy::Array(Box::new(copy_ty(e)), n.clone()),
        SynTy::Tuple(ts) => SynTy::Tuple(copy_list(ts)),
        SynTy::ImplicitSelf => SynTy::ImplicitSelf,
        SynTy::Other(s) => SynTy::Other(s.clone()),
    }
}

// ---------------------------------------------------------------- the service's impl

/// A range of source positions.
#[derive(Clone, Copy, PartialEq, Eq, Structural, Debug, Default)]
pub struct Span {
    pub lo: u32,
    pub hi: u32,
}

/// The span that covers both.
pub open spec fn span_to(a: Span, b: Span) -> Span {
    Span { lo: if a.lo <= b.lo { a.lo } else { b.lo }, hi: if a.hi >= b.hi { a.hi } else { b.hi } }
}

fn span_to_exec(a: Span, b: Span) -> (r: Span)
    ensures
        r == span_to(a, b),
{
    Span { lo: if a.lo <= b.lo { a.lo } else { b.lo }, hi: if a.hi >= b.hi { a.hi } else { b.hi } }
}

/// An argument of a method.
pub struct SynArg {
    /// Whether the pattern is a plain identifier.
    pub pat_is_ident: bool,
    pub pat_span: Span,
    pub ty: SynTy,
    pub ty_span: Span,
    /// Whether the type is a reference to the context.
    pub is_context_ref: bool,
}

/// The signature of a method in the service's `impl`.
pub struct SynMethod {
    pub is_async: bool,
    pub async_span: Span,
    pub is_unsafe: bool,
    /// Whether it declares no ABI (or the Rust one).
    pub abi_is_rust: bool,
    pub inputs: Vec<SynArg>,
    /// The type that it returns (out of its `Result`), where that is known.
    pub ret: Option<SynTy>,
    pub output_span: Span,
}

/// An item of the service's `impl`.
pub enum SynImplItemKind {
    Method(SynMethod),
    Other,
}

pub struct SynImplItem {
    pub ident: String,
    pub ident_span: Span,
    pub span: Span,
    pub is_pub: bool,
    pub generics_empty: bool,
    pub generics_span: Span,
    pub kind: SynImplItemKind,
}

/// A top-level item of the service's crate.
pub enum SynItemKind {
    Struct { generics_empty: bool, generics_span: Span },
    /// An `impl` block: whether it implements a trait, its self type and its items.
    Impl { is_trait_impl: bool, self_ty: SynTy, items: Vec<SynImplItem> },
    Other,
}

pub struct SynItem {
    pub ident: String,
    pub span: Span,
    pub kind: SynItemKind,
}

/// What is wrong with an RPC method or the service's definition.
pub enum RpcError {
    BadArgPat(Span),
    BadArgTy { span: Span, suggestion: String },
    BadStruct(Span),
    CtorVis(Span),
    HasAbi(Span),
    HasAsync(Span),
    HasGenerics(Span),
    MissingContext { from_ctor: bool, span: Span },
    MissingSelf(Span),
    BadCtorReturn { self_ty: SynTy, span: Span },
    MissingOutput(Span),
    Unsafe(Span),
}

pub enum RpcErrorV {
    BadArgPat(Span),
    BadArgTy { span: Span, suggestion: Seq<char> },
    BadStruct(Span),
    CtorVis(Span),
    HasAbi(Span),
    HasAsync(Span),
    HasGenerics(Span),
    MissingContext { from_ctor: bool, span: Span },
    MissingSelf(Span),
    BadCtorReturn { self_ty: SynTyV, span: Span },
    MissingOutput(Span),
    Unsafe(Span),
}

impl View for RpcError {
    type V = RpcErrorV;

    open spec fn view(&self) -> RpcErrorV {
        match self {
            RpcError::BadArgPat(s) => RpcErrorV::BadArgPat(*s),
            RpcError::BadArgTy { span, suggestion } => RpcErrorV::BadArgTy {
                span: *span,
                suggestion: suggestion@,
            },
            RpcError::BadStruct(s) => RpcErrorV::BadStruct(*s),
            RpcError::CtorVis(s) => RpcErrorV::CtorVis(*s),
            RpcError::HasAbi(s) => RpcErrorV::HasAbi(*s),
            RpcError::HasAsync(s) => RpcErrorV::HasAsync(*s),
            RpcError::HasGenerics(s) => RpcErrorV::HasGenerics(*s),
            RpcError::MissingContext { from_ctor, span } => RpcErrorV::MissingContext {
                from_ctor: *from_ctor,
                span: *span,
            },
            RpcError::MissingSelf(s) => RpcErrorV::MissingSelf(*s),
            RpcError::BadCtorReturn { self_ty, span } => RpcErrorV::BadCtorReturn {
                self_ty: self_ty@,
                span: *span,
            },
            RpcError::MissingOutput(s) => RpcErrorV::MissingOutput(*s),
            RpcError::Unsafe(s) => RpcErrorV::Unsafe(*s),
        }
    }
}

pub open spec fn rpc_error_views(v: Seq<RpcError>) -> Seq<RpcErrorV> {
    v.map_values(|e: RpcError| e@)
}

pub struct SynArgV {
    pub pat_is_ident: bool,
    pub pat_span: Span,
    pub ty: SynTyV,
    pub ty_span: Span,
    pub is_context_ref: bool,
}

pub struct SynMethodV {
    pub is_async: bool,
    pub async_span: Span,
    pub is_unsafe: bool,
    pub abi_is_rust: bool,
    pub inputs: Seq<SynArgV>,
    pub ret: Option<SynTyV>,
    pub output_span: Span,
}

impl View for SynArg {
    type V = SynArgV;

    open spec fn view(&self) -> SynArgV {
        SynArgV {
            pat_is_ident: self.pat_is_ident,
            pat_span: self.pat_span,
            ty: self.ty@,
            ty_span: self.ty_span,
            is_context_ref: self.is_context_ref,
        }
    }
}

pub open spec fn arg_views(v: Seq<SynArg>) -> Seq<SynArgV> {
    v.map_values(|a: SynArg| a@)
}

impl View for SynMethod {
    type V = SynMethodV;

    open spec fn view(&self) -> SynMethodV {
        SynMethodV {
            is_async: self.is_async,
            async_span: self.async_span,
            is_unsafe: self.is_unsafe,
            abi_is_rust: self.abi_is_rust,
            inputs: arg_views(self.inputs@),
            ret: match self.ret {
                Some(t) => Some(t@),
                None => None,
            },
            output_span: self.output_span,
        }
    }
}

pub open spec fn rpc_views(v: Seq<(String, SynMethod)>) -> Seq<(Seq<char>, SynMethodV)> {
    v.map_values(|p: (String, SynMethod)| (p.0@, p.1@))
}

/// `&self` or `&mut self`.
pub open spec fn is_self_ref(t: SynTyV) -> bool {
    t matches SynTyV::Ref { ty, .. } && *ty == SynTyV::ImplicitSelf
}

/// Whether a return type is `Self`.
pub open spec fn returns_self(ret: Option<SynTyV>) -> bool {
    ret matches Some(SynTyV::Path(segs)) && segs.len() == 1 && segs[0].0 == "Self"@
}

/// The span of a declared ABI: the text between `pub ` and ` fn`.
pub open spec fn abi_span(item: Span, ident: Span) -> Span {
    Span { lo: (item.lo + 4) as u32, hi: (ident.lo - 4) as u32 }
}

/// The errors of the arguments after `self` and the context: patterns that are not
/// identifiers, and types that hold references (with the owned type to use instead).
pub open spec fn arg_errors(args: Seq<SynArgV>) -> Seq<RpcErrorV>
    decreases args.len(),
{
    if args.len() == 0 {
        seq![]
    } else {
        let a = args.last();
        let pat = if a.pat_is_ident {
            seq![]
        } else {
            seq![RpcErrorV::BadArgPat(a.pat_span)]
        };
        let ty = if has_ref(a.ty) {
            seq![RpcErrorV::BadArgTy { span: a.ty_span, suggestion: print_ty(deborrow(a.ty)) }]
        } else {
            seq![]
        };
        arg_errors(args.drop_last()) + pat + ty
    }
}

/// The errors of a method of the service's `impl`: those reported at once (a declared
/// ABI, a second argument that is not the context), and those that keep the method
/// out of the RPCs (generics, `async`, `unsafe`, a missing `self` or context, bad
/// arguments, a constructor that does not return `Self`).
pub open spec fn method_errors(
    ident: Seq<char>,
    ident_span: Span,
    span: Span,
    generics_empty: bool,
    generics_span: Span,
    m: SynMethodV,
    service_ty: SynTyV,
) -> (Seq<RpcErrorV>, Seq<RpcErrorV>) {
    let is_ctor = ident == "new"@;
    let n = m.inputs.len();
    let l1 = if !generics_empty {
        seq![RpcErrorV::HasGenerics(generics_span)]
    } else {
        seq![]
    };
    let l2 = if m.is_async {
        l1.push(RpcErrorV::HasAsync(m.async_span))
    } else {
        l1
    };
    let l3 = if m.is_unsafe {
        l2.push(RpcErrorV::Unsafe(span))
    } else {
        l2
    };
    let d1 = if !m.abi_is_rust {
        seq![RpcErrorV::HasAbi(abi_span(span, ident_span))]
    } else {
        seq![]
    };
    let l4 = if is_ctor {
        l3
    } else if n == 0 {
        l3.push(RpcErrorV::MissingSelf(ident_span))
    } else if !is_self_ref(m.inputs[0].ty) {
        l3.push(RpcErrorV::MissingSelf(m.inputs[0].pat_span))
    } else {
        l3
    };
    let ctx_at: int = if is_ctor || n == 0 {
        0
    } else {
        1
    };
    let l5 = if ctx_at >= n {
        l4.push(RpcErrorV::MissingContext { from_ctor: is_ctor, span: ident_span })
    } else {
        l4
    };
    let d2 = if ctx_at < n && !m.inputs[ctx_at].is_context_ref {
        d1.push(
            RpcErrorV::MissingContext {
                from_ctor: is_ctor,
                span: span_to(m.inputs[ctx_at].ty_span, m.inputs[ctx_at].pat_span),
            },
        )
    } else {
        d1
    };
    let rest = if ctx_at < n {
        m.inputs.skip(ctx_at + 1)
    } else {
        seq![]
    };
    let l6 = l5 + arg_errors(rest);
    let l7 = if is_ctor && !returns_self(m.ret) {
        l6.push(RpcErrorV::BadCtorReturn { self_ty: service_ty, span: m.output_span })
    } else {
        l6
    };
    (d2, l7)
}

/// Whether an item of the `impl` is looked at: a method that is public or the
/// constructor.
pub open spec fn checked_item(it: SynImplItem) -> bool {
    (it.is_pub || it.ident@ == "new"@) && it.kind is Method
}

/// The RPCs and errors after looking at the items of the service's `impl`: a method
/// with no error of its own is an RPC; every error is collected.
pub open spec fn impl_items_step(
    rpcs: Seq<(Seq<char>, SynMethodV)>,
    errors: Seq<RpcErrorV>,
    items: Seq<SynImplItem>,
    service_ty: SynTyV,
) -> (Seq<(Seq<char>, SynMethodV)>, Seq<RpcErrorV>)
    decreases items.len(),
{
    if items.len() == 0 {
        (rpcs, errors)
    } else {
        let (r, e) = impl_items_step(rpcs, errors, items.drop_last(), service_ty);
        let it = items.last();
        if !checked_item(it) {
            (r, e)
        } else {
            let m = it.kind->Method_0@;
            let (direct, own) = method_errors(
                it.ident@,
                it.ident_span,
                it.span,
                it.generics_empty,
                it.generics_span,
                m,
                service_ty,
            );
            if own.len() == 0 {
                (r.push((it.ident@, m)), e + direct)
            } else {
                (r, e + direct + own)
            }
        }
    }
}

/// Whether a type is the single-segment path `name`.
pub open spec fn is_named_path(t: SynTyV, name: Seq<char>) -> bool {
    t matches SynTyV::Path(segs) && segs.len() == 1 && segs[0].0 == name
}

/// Whether every method that declares an ABI starts at least four positions before
/// its name (as `pub ` does).
pub open spec fn spans_ok(items: Seq<SynImplItem>) -> bool {
    forall|i: int|
        0 <= i < items.len() && ((#[trigger] items[i]).kind matches SynImplItemKind::Method(m)
            && !m.abi_is_rust) ==> items[i].span.lo + 4 <= items[i].ident_span.lo
}

fn arg_errors_exec(args: &Vec<SynArg>, from: usize, out: &mut Vec<RpcError>)
    requires
        from <= args@.len(),
    ensures
        rpc_error_views(final(out)@) == rpc_error_views(old(out)@) + arg_errors(
            arg_views(args@).skip(from as int),
        ),
{
    let ghost base = rpc_error_views(out@);
    let ghost all = arg_views(args@).skip(from as int);
    let mut i: usize = from;
    assert(all.take(0) =~= Seq::<SynArgV>::empty());
    assert(base + arg_errors(Seq::<SynArgV>::empty()) =~= base);
    while i < args.len()
        invariant
            from <= i <= args@.len(),
            all == arg_views(args@).skip(from as int),
            rpc_error_views(out@) == base + arg_errors(all.take(i - from)),
        decreases args@.len() - i,
    {
        proof {
            assert(all.take(i + 1 - from).drop_last() =~= all.take(i - from));
            assert(all.take(i + 1 - from).last() == args@[i as int]@);
        }
        let ghost mid = rpc_error_views(out@);
        let a = &args[i];
        if !a.pat_is_ident {
            let e = RpcError::BadArgPat(a.pat_span);
            let ghost before = out@;
            out.push(e);
            assert(rpc_error_views(out@) =~= rpc_error_views(before).push(e@));
        }
        let ghost mid2 = rpc_error_views(out@);
        let mut checker = RefChecker::new();
        checker.visit_ty(&a.ty);
        if checker.has_ref {
            let mut suggested = copy_ty(&a.ty);
            let mut deborrower = Deborrower;
            deborrower.visit_ty(&mut suggested);
            let e = RpcError::BadArgTy { span: a.ty_span, suggestion: ty_to_string(&suggested) };
            let ghost before = out@;
            out.push(e);
            assert(rpc_error_views(out@) =~= rpc_error_views(before).push(e@));
        }
        proof {
            let av = args@[i as int]@;
            let pat = if av.pat_is_ident {
                Seq::<RpcErrorV>::empty()
            } else {
                seq![RpcErrorV::BadArgPat(av.pat_span)]
            };
            let ty = if has_ref(av.ty) {
                seq![RpcErrorV::BadArgTy { span: av.ty_span, suggestion: print_ty(deborrow(av.ty)) }]
            } else {
                Seq::<RpcErrorV>::empty()
            };
            assert(mid2 =~= mid + pat);
            assert(rpc_error_views(out@) =~= mid + pat + ty);
            assert(base + arg_errors(all.take(i + 1 - from)) =~= base + arg_errors(all.take(i - from))
                + pat + ty);
        }
        i = i + 1;
    }
    assert(all.take(i - from) =~= all);
}

fn is_self_ref_exec(ty: &SynTy) -> (r: bool)
    ensures
        r == is_self_ref(ty@),
{
    match ty {
        SynTy::Ref { ty: inner, .. } => match &**inner {
            SynTy::ImplicitSelf => true,
            _ => {
                assert(syn_view(**inner) != SynTyV::ImplicitSelf);
                false
            },
        },
        _ => false,
    }
}

fn returns_self_exec(ret: &Option<SynTy>) -> (r: bool)
    ensures
        r == returns_self(match ret {
            Some(t) => Some(t@),
            None => None,
        }),
{
    match ret {
        Some(SynTy::Path(segs)) => {
            proof {
                lemma_seg_views(segs@);
            }
            segs.len() == 1 && str_eq(segs[0].ident.as_str(), "Self")
        },
        _ => false,
    }
}

fn push_error(out: &mut Vec<RpcError>, e: RpcError)
    ensures
        rpc_error_views(final(out)@) == rpc_error_views(old(out)@).push(e@),
{
    let ghost before = out@;
    out.push(e);
    assert(rpc_error_views(out@) =~= rpc_error_views(before).push(e@));
}

/// The errors of a method of the service's `impl` (see `method_errors`): those
/// reported at once, and the method's own.
fn check_method(it: &SynImplItem, m: &SynMethod, service_ty: &SynTy) -> (r: (Vec<RpcError>, Vec<RpcError>))
    requires
        !m.abi_is_rust ==> it.span.lo + 4 <= it.ident_span.lo,
    ensures
        (rpc_error_views(r.0@), rpc_error_views(r.1@)) == method_errors(
            it.ident@,
            it.ident_span,
            it.span,
            it.generics_empty,
            it.generics_span,
            m@,
            service_ty@,
        ),
{
    proof {
        reveal_strlit("new");
    }
    let is_ctor = str_eq(it.ident.as_str(), "new");
    let mut own: Vec<RpcError> = Vec::new();
    let mut direct: Vec<RpcError> = Vec::new();
    assert(rpc_error_views(own@) =~= Seq::<RpcErrorV>::empty());
    if !it.generics_empty {
        push_error(&mut own, RpcError::HasGenerics(it.generics_span));
    }
    if m.is_async {
        push_error(&mut own, RpcError::HasAsync(m.async_span));
    }
    if m.is_unsafe {
        push_error(&mut own, RpcError::Unsafe(it.span));
    }
    if !m.abi_is_rust {
        let lo = it.span.lo + 4;
        let hi = it.ident_span.lo - 4;
        push_error(&mut direct, RpcError::HasAbi(Span { lo, hi }));
    }
    let n = m.inputs.len();
    proof {
        assert(arg_views(m.inputs@).len() == n);
    }
    let mut ctx_at: usize = 0;
    if !is_ctor {
        if n == 0 {
            push_error(&mut own, RpcError::MissingSelf(it.ident_span));
        } else {
            if !is_self_ref_exec(&m.inputs[0].ty) {
                push_error(&mut own, RpcError::MissingSelf(m.inputs[0].pat_span));
            }
            ctx_at = 1;
        }
    }
    if ctx_at >= n {
        push_error(&mut own, RpcError::MissingContext { from_ctor: is_ctor, span: it.ident_span });
    } else {
        if !m.inputs[ctx_at].is_context_ref {
            let span = span_to_exec(m.inputs[ctx_at].ty_span, m.inputs[ctx_at].pat_span);
            push_error(&mut direct, RpcError::MissingContext { from_ctor: is_ctor, span });
        }
        arg_errors_exec(&m.inputs, ctx_at + 1, &mut own);
    }
    proof {
        if ctx_at >= n {
            assert(arg_errors(Seq::<SynArgV>::empty()) =~= Seq::<RpcErrorV>::empty());
        }
    }
    if is_ctor && !returns_self_exec(&m.ret) {
        let self_ty = copy_ty(service_ty);
        push_error(&mut own, RpcError::BadCtorReturn { self_ty, span: m.output_span });
    }
    (direct, own)
}

/// Collects the RPC methods of the service named `service_name` from the items of its
/// crate, and what is wrong with them or with the service's definition.
pub struct ParsedRpcCollector {
    service_name: String,
    rpcs: Vec<(String, SynMethod)>,
    errors: Vec<RpcError>,
    struct_span: Span,
}

pub struct CollectorV {
    pub service_name: Seq<char>,
    pub rpcs: Seq<(Seq<char>, SynMethodV)>,
    pub errors: Seq<RpcErrorV>,
    pub struct_span: Span,
}

impl View for ParsedRpcCollector {
    type V = CollectorV;

    closed spec fn view(&self) -> CollectorV {
        CollectorV {
            service_name: self.service_name@,
            rpcs: rpc_views(self.rpcs@),
            errors: rpc_error_views(self.errors@),
            struct_span: self.struct_span,
        }
    }
}

/// What looking at one item of the crate does: the service's struct is noted (and must
/// not be generic), its inherent `impl` is checked item by item, and anything else
/// named like the service is an error.
pub open spec fn spec_visit_item(c: CollectorV, item: SynItem) -> CollectorV {
    match item.kind {
        SynItemKind::Struct { generics_empty, generics_span } if item.ident@ == c.service_name => CollectorV {
            errors: if generics_empty {
                c.errors
            } else {
                c.errors.push(RpcErrorV::HasGenerics(generics_span))
            },
            struct_span: item.span,
            ..c
        },
        SynItemKind::Impl { is_trait_impl, self_ty, items } if !is_trait_impl && is_named_path(
            self_ty@,
            c.service_name,
        ) => {
            let (r, e) = impl_items_step(c.rpcs, c.errors, items@, self_ty@);
            CollectorV { rpcs: r, errors: e, ..c }
        },
        _ => if item.ident@ == c.service_name {
            CollectorV { errors: c.errors.push(RpcErrorV::BadStruct(item.span)), ..c }
        } else {
            c
        },
    }
}

fn copy_method(m: &SynMethod) -> (r: SynMethod)
    ensures
        r@ == m@,
{
    let mut inputs: Vec<SynArg> = Vec::new();
    let mut i: usize = 0;
    while i < m.inputs.len()
        invariant
            0 <= i <= m.inputs@.len(),
            arg_views(inputs@) == arg_views(m.inputs@).take(i as int),
        decreases m.inputs@.len() - i,
    {
        let a = &m.inputs[i];
        let c = SynArg {
            pat_is_ident: a.pat_is_ident,
            pat_span: a.pat_span,
            ty: copy_ty(&a.ty),
            ty_span: a.ty_span,
            is_context_ref: a.is_context_ref,
        };
        let ghost before = inputs@;
        inputs.push(c);
        assert(arg_views(inputs@) =~= arg_views(before).push(c@));
        assert(arg_views(inputs@) =~= arg_views(m.inputs@).take(i + 1));
        i = i + 1;
    }
    assert(arg_views(m.inputs@).take(i as int) =~= arg_views(m.inputs@));
    let ret = match &m.ret {
        Some(t) => Some(copy_ty(t)),
        None => None,
    };
    SynMethod {
        is_async: m.is_async,
        async_span: m.async_span,
        is_unsafe: m.is_unsafe,
        abi_is_rust: m.abi_is_rust,
        inputs,
        ret,
        output_span: m.output_span,
    }
}

impl ParsedRpcCollector {
    /// A collector for the service named `service_name`.
    pub fn new(service_name: String) -> (c: ParsedRpcCollector)
        ensures
            c@ == (CollectorV {
                service_name: service_name@,
                rpcs: seq![],
                errors: seq![],
                struct_span: Span { lo: 0, hi: 0 },
            }),
    {
        let c = ParsedRpcCollector {
            service_name,
            rpcs: Vec::new(),
            errors: Vec::new(),
            struct_span: Span { lo: 0, hi: 0 },
        };
        assert(c@.rpcs =~= seq![]);
        assert(c@.errors =~= seq![]);
        c
    }

    /// The span of the service's struct.
    pub fn struct_span(&self) -> (s: Span)
        ensures
            s == self@.struct_span,
    {
        self.struct_span
    }

    /// The RPC methods, unless something was wrong.
    pub fn into_rpcs(self) -> (r: Result<Vec<(String, SynMethod)>, Vec<RpcError>>)
        ensures
            match r {
                Ok(rpcs) => self@.errors.len() == 0 && rpc_views(rpcs@) == self@.rpcs,
                Err(errs) => self@.errors.len() > 0 && rpc_error_views(errs@) == self@.errors,
            },
    {
        if self.errors.len() == 0 {
            Ok(self.rpcs)
        } else {
            Err(self.errors)
        }
    }

    /// Whether a type is `&self` or `&mut self`.
    pub fn is_self_ref(ty: &SynTy) -> (r: bool)
        ensures
            r == is_self_ref(ty@),
    {
        is_self_ref_exec(ty)
    }

    /// Looks at one item of the service's crate (see `spec_visit_item`).
    pub fn visit_item(&mut self, item: &SynItem)
        requires
            item.kind matches SynItemKind::Impl { items, .. } ==> spans_ok(items@),
        ensures
            final(self)@ == spec_visit_item(old(self)@, *item),
    {
        let named = str_eq(item.ident.as_str(), self.service_name.as_str());
        match &item.kind {
            SynItemKind::Struct { generics_empty, generics_span } => {
                if named {
                    if !*generics_empty {
                        push_error(&mut self.errors, RpcError::HasGenerics(*generics_span));
                    }
                    self.struct_span = item.span;
                }
                return;
            },
            SynItemKind::Impl { is_trait_impl, self_ty, items } => {
                let is_service = match self_ty {
                    SynTy::Path(segs) => {
                        proof {
                            lemma_seg_views(segs@);
                        }
                        segs.len() == 1 && str_eq(segs[0].ident.as_str(), self.service_name.as_str())
                    },
                    _ => false,
                };
                if !*is_trait_impl && is_service {
                    self.check_impl_items(items, self_ty);
                    return;
                }
            },
            SynItemKind::Other => {},
        }
        if named {
            push_error(&mut self.errors, RpcError::BadStruct(item.span));
        }
    }

    fn check_impl_items(&mut self, items: &Vec<SynImplItem>, service_ty: &SynTy)
        requires
            spans_ok(items@),
        ensures
            final(self)@ == (CollectorV {
                rpcs: impl_items_step(old(self)@.rpcs, old(self)@.errors, items@, service_ty@).0,
                errors: impl_items_step(old(self)@.rpcs, old(self)@.errors, items@, service_ty@).1,
                ..old(self)@
            }),
    {
        let ghost r0 = self@.rpcs;
        let ghost e0 = self@.errors;
        let mut i: usize = 0;
        while i < items.len()
            invariant
                0 <= i <= items@.len(),
                spans_ok(items@),
                self@.service_name == old(self)@.service_name,
                self@.struct_span == old(self)@.struct_span,
                r0 == old(self)@.rpcs,
                e0 == old(self)@.errors,
                (self@.rpcs, self@.errors) == impl_items_step(r0, e0, items@.take(i as int), service_ty@),
            decreases items@.len() - i,
        {
            proof {
                assert(items@.take(i + 1).drop_last() =~= items@.take(i as int));
                assert(items@.take(i + 1).last() == items@[i as int]);
            }
            let it = &items[i];
            let is_ctor = crate::idl::str_eq(it.ident.as_str(), "new");
            proof {
                reveal_strlit("new");
            }
            if it.is_pub || is_ctor {
                match &it.kind {
                    SynImplItemKind::Method(m) => {
                        let (mut direct, mut own) = check_method(it, m, service_ty);
                        let ghost dv = rpc_error_views(direct@);
                        let ghost ov = rpc_error_views(own@);
                        let ghost before = rpc_error_views(self.errors@);
                        self.errors.append(&mut direct);
                        assert(rpc_error_views(self.errors@) =~= before + dv);
                        if own.len() == 0 {
                            let ghost rb = self.rpcs@;
                            let entry = (it.ident.clone(), copy_method(m));
                            self.rpcs.push(entry);
                            assert(rpc_views(self.rpcs@) =~= rpc_views(rb).push((it.ident@, m@)));
                        } else {
                            self.errors.append(&mut own);
                            assert(rpc_error_views(self.errors@) =~= before + dv + ov);
                        }
                    },
                    SynImplItemKind::Other => {},
                }
            }
            i = i + 1;
        }
        assert(items@.take(i as int) =~= items@);
    }
}

/// What an error of the syntax pass tells the user.
pub open spec fn error_message(e: RpcErrorV) -> Seq<char> {
    match e {
        RpcErrorV::BadArgPat(_) => "Argument name must be a valid identifier."@,
        RpcErrorV::BadArgTy { suggestion, .. } => "RPC argument must be an owned type. Maybe try `"@
            + suggestion + "`?"@,
        RpcErrorV::BadStruct(_) => "Service must be a struct."@,
        RpcErrorV::BadCtorReturn { self_ty, .. } => "Service constructor must return `Self` (aka `"@
            + print_ty(self_ty) + "`)"@,
        RpcErrorV::CtorVis(_) => "Service constructor must have `pub` visibility."@,
        RpcErrorV::HasAbi(_) => "RPC method cannot declare an ABI."@,
        RpcErrorV::HasAsync(_) => "RPC method cannot be async."@,
        RpcErrorV::HasGenerics(_) => "RPC method cannot have generic parameters."@,
        RpcErrorV::MissingContext { from_ctor, .. } => if from_ctor {
            "Service constructor must take `&Context` as its first argument."@
        } else {
            "RPC method must take `&Context` as its second argument."@
        },
        RpcErrorV::MissingSelf(_) => "RPC method must take `&self` or `&mut self` as its first argument."@,
        RpcErrorV::MissingOutput(_) => "RPC method must return `Result`."@,
        RpcErrorV::Unsafe(_) => "RPC method cannot be unsafe."@,
    }
}

fn word(w: &str) -> (r: String)
    ensures
        r@ == w@,
{
    string_from_chars(str_chars(w).as_slice())
}

impl RpcError {
    /// Where the error is.
    pub fn span(&self) -> (s: Span)
        ensures
            s == match self@ {
                RpcErrorV::BadArgPat(s) | RpcErrorV::BadStruct(s) | RpcErrorV::CtorVis(s)
                | RpcErrorV::HasAbi(s) | RpcErrorV::HasAsync(s) | RpcErrorV::HasGenerics(s)
                | RpcErrorV::MissingSelf(s) | RpcErrorV::MissingOutput(s) | RpcErrorV::Unsafe(s) => s,
                RpcErrorV::BadArgTy { span, .. } => span,
                RpcErrorV::MissingContext { span, .. } => span,
                RpcErrorV::BadCtorReturn { span, .. } => span,
            },
    {
        match self {
            RpcError::BadArgPat(s) | RpcError::BadStruct(s) | RpcError::CtorVis(s)
            | RpcError::HasAbi(s) | RpcError::HasAsync(s) | RpcError::HasGenerics(s)
            | RpcError::MissingSelf(s) | RpcError::MissingOutput(s) | RpcError::Unsafe(s) => *s,
            RpcError::BadArgTy { span, .. } => *span,
            RpcError::MissingContext { span, .. } => *span,
            RpcError::BadCtorReturn { span, .. } => *span,
        }
    }

    /// What the error tells the user.
    pub fn message(&self) -> (r: String)
        ensures
            r@ == error_message(self@),
    {
        match self {
            RpcError::BadArgPat(_) => word("Argument name must be a valid identifier."),
            RpcError::BadArgTy { suggestion, .. } => join3(
                "RPC argument must be an owned type. Maybe try `",
                suggestion.as_str(),
                "`?",
            ),
            RpcError::BadStruct(_) => word("Service must be a struct."),
            RpcError::BadCtorReturn { self_ty, .. } => {
                let t = ty_to_string(self_ty);
                join3("Service constructor must return `Self` (aka `", t.as_str(), "`)")
            },
            RpcError::CtorVis(_) => word("Service constructor must have `pub` visibility."),
            RpcError::HasAbi(_) => word("RPC method cannot declare an ABI."),
            RpcError::HasAsync(_) => word("RPC method cannot be async."),
            RpcError::HasGenerics(_) => word("RPC method cannot have generic parameters."),
            RpcError::MissingContext { from_ctor, .. } => if *from_ctor {
                word("Service constructor must take `&Context` as its first argument.")
            } else {
                word("RPC method must take `&Context` as its second argument.")
            },
            RpcError::MissingSelf(_) => word(
                "RPC method must take `&self` or `&mut self` as its first argument.",
            ),
            RpcError::MissingOutput(_) => word("RPC method must return `Result`."),
            RpcError::Unsafe(_) => word("RPC method cannot be unsafe."),
        }
    }
}

// ---------------------------------------------------------------- services and events

/// An attribute of an item: for `#[derive(...)]`, the identifier of each entry (where
/// the entry is one); nothing for any other attribute.
pub struct AttrShape {
    pub derives: Option<Vec<Option<String>>>,
}

/// A field of a struct: its name (none for a tuple field) and whether it is marked
/// `#[indexed]`.
pub struct FieldAttrs {
    pub ident: Option<String>,
    pub indexed: bool,
}

/// An item as the service finder sees it: its name, its attributes, and its fields
/// where it is a struct.
pub struct DefItem {
    pub ident: String,
    pub attrs: Vec<AttrShape>,
    pub struct_fields: Option<Vec<FieldAttrs>>,
}

/// A macro invocation: its path, where it is, and the identifier it is given.
pub struct MacroCall {
    pub path: Vec<String>,
    pub span: Span,
    pub ident: String,
}

/// A service that the crate declares with `mantle::service!`.
pub struct Service {
    pub span: Span,
    pub name: String,
}

/// The names of the fields marked `#[indexed]`, in order.
pub open spec fn indexed_names(fields: Seq<FieldAttrs>) -> Seq<Seq<char>>
    decreases fields.len(),
{
    if fields.len() == 0 {
        seq![]
    } else if fields.last().indexed && fields.last().ident is Some {
        indexed_names(fields.drop_last()).push(fields.last().ident->0@)
    } else {
        indexed_names(fields.drop_last())
    }
}

pub open spec fn opt_string_views(v: Seq<Option<String>>) -> Seq<Option<Seq<char>>> {
    v.map_values(|o: Option<String>| match o {
        Some(s) => Some(s@),
        None => None,
    })
}

/// Reading the entries of a `derive` list: each `Event` notes the item's indexed
/// fields (where the item is a struct), and the other entries are passed over.
pub open spec fn scan_derives(metas: Seq<Option<Seq<char>>>, name: Seq<char>, fields: Option<Seq<FieldAttrs>>) -> Seq<(Seq<char>, Seq<Seq<char>>)>
    decreases metas.len(),
{
    if metas.len() == 0 {
        seq![]
    } else {
        let here = if metas[0] == Some("Event"@) {
            match fields {
                Some(fs) => seq![(name, indexed_names(fs))],
                None => seq![],
            }
        } else {
            seq![]
        };
        here + scan_derives(metas.drop_first(), name, fields)
    }
}

/// The entries that looking at an item notes, attribute by attribute.
pub open spec fn scan_attrs(attrs: Seq<AttrShape>, name: Seq<char>, fields: Option<Seq<FieldAttrs>>) -> Seq<(Seq<char>, Seq<Seq<char>>)>
    decreases attrs.len(),
{
    if attrs.len() == 0 {
        seq![]
    } else {
        match attrs[0].derives {
            None => scan_attrs(attrs.drop_first(), name, fields),
            Some(metas) => scan_derives(opt_string_views(metas@), name, fields) + scan_attrs(
                attrs.drop_first(),
                name,
                fields,
            ),
        }
    }
}

pub open spec fn item_fields(item: DefItem) -> Option<Seq<FieldAttrs>> {
    match item.struct_fields {
        Some(fs) => Some(fs@),
        None => None,
    }
}

/// Finds the services that a crate declares and, for each event struct, its indexed
/// fields.
pub struct ServiceDefFinder {
    services: Vec<Service>,
    event_indexed_fields: Vec<(String, Vec<String>)>,
}

pub struct FinderV {
    pub services: Seq<(Span, Seq<char>)>,
    pub events: Seq<(Seq<char>, Seq<Seq<char>>)>,
}

pub open spec fn service_views(v: Seq<Service>) -> Seq<(Span, Seq<char>)> {
    v.map_values(|s: Service| (s.span, s.name@))
}

pub open spec fn event_views(v: Seq<(String, Vec<String>)>) -> Seq<(Seq<char>, Seq<Seq<char>>)> {
    v.map_values(|p: (String, Vec<String>)| (p.0@, crate::idl::string_views(p.1@)))
}

impl View for ServiceDefFinder {
    type V = FinderV;

    closed spec fn view(&self) -> FinderV {
        FinderV {
            services: service_views(self.services@),
            events: event_views(self.event_indexed_fields@),
        }
    }
}

fn indexed_names_exec(fields: &Vec<FieldAttrs>) -> (r: Vec<String>)
    ensures
        crate::idl::string_views(r@) == indexed_names(fields@),
{
    let mut out: Vec<String> = Vec::new();
    let mut i: usize = 0;
    while i < fields.len()
        invariant
            0 <= i <= fields@.len(),
            crate::idl::string_views(out@) == indexed_names(fields@.take(i as int)),
        decreases fields@.len() - i,
    {
        proof {
            assert(fields@.take(i + 1).drop_last() =~= fields@.take(i as int));
        }
        if fields[i].indexed {
            match &fields[i].ident {
                Some(id) => {
                    let ghost before = out@;
                    let c = id.clone();
                    out.push(c);
                    assert(crate::idl::string_views(out@) =~= crate::idl::string_views(before).push(c@));
                },
                None => {},
            }
        }
        i = i + 1;
    }
    assert(fields@.take(i as int) =~= fields@);
    out
}

impl ServiceDefFinder {
    /// A finder that has found nothing yet.
    pub fn new() -> (f: ServiceDefFinder)
        ensures
            f@.services == Seq::<(Span, Seq<char>)>::empty(),
            f@.events == Seq::<(Seq<char>, Seq<Seq<char>>)>::empty(),
    {
        let f = ServiceDefFinder { services: Vec::new(), event_indexed_fields: Vec::new() };
        assert(f@.services =~= seq![]);
        assert(f@.events =~= seq![]);
        f
    }

    /// The services found, and each event's indexed fields (a later entry for the same
    /// event replaces an earlier one).
    pub fn get(self) -> (r: (Vec<Service>, Vec<(String, Vec<String>)>))
        ensures
            service_views(r.0@) == self@.services,
            event_views(r.1@) == self@.events,
    {
        (self.services, self.event_indexed_fields)
    }

    /// Looks at the attributes of an item: each `Event` in a `derive` list of a struct
    /// notes its indexed fields; other derives are passed over.
    pub fn visit_item(&mut self, item: &DefItem)
        ensures
            final(self)@.services == old(self)@.services,
            final(self)@.events == old(self)@.events + scan_attrs(item.attrs@, item.ident@, item_fields(*item)),
    {
        proof {
            reveal_strlit("Event");
        }
        let ghost name = item.ident@;
        let ghost fields = item_fields(*item);
        let ghost start = self@.events;
        let mut a: usize = 0;
        assert(item.attrs@.skip(0) =~= item.attrs@);
        while a < item.attrs.len()
            invariant
                0 <= a <= item.attrs@.len(),
                name == item.ident@,
                fields == item_fields(*item),
                self@.services == old(self)@.services,
                start == old(self)@.events,
                start + scan_attrs(item.attrs@, name, fields) == self@.events + scan_attrs(
                    item.attrs@.skip(a as int),
                    name,
                    fields,
                ),
            decreases item.attrs@.len() - a,
        {
            let ghost rest = item.attrs@.skip(a as int);
            assert(rest.drop_first() =~= item.attrs@.skip(a + 1));
            assert(rest[0] == item.attrs@[a as int]);
            match &item.attrs[a].derives {
                None => {},
                Some(metas) => {
                    let ghost mv = opt_string_views(metas@);
                    let mut k: usize = 0;
                    let ghost before_attr = self@.events;
                    assert(mv.skip(0) =~= mv);
                    assert(before_attr + Seq::<(Seq<char>, Seq<Seq<char>>)>::empty() =~= before_attr);
                    while k < metas.len()
                        invariant
                            0 <= k <= metas@.len(),
                            a < item.attrs@.len(),
                            item.attrs@[a as int].derives == Some(*metas),
                            start == old(self)@.events,
                            start + scan_attrs(item.attrs@, name, fields) == before_attr + scan_attrs(
                                item.attrs@.skip(a as int),
                                name,
                                fields,
                            ),
                            mv == opt_string_views(metas@),
                            name == item.ident@,
                            fields == item_fields(*item),
                            self@.services == old(self)@.services,
                            self@.events + scan_derives(mv.skip(k as int), name, fields) == before_attr
                                + scan_derives(mv, name, fields),
                        decreases metas@.len() - k,
                    {
                        let ghost r = mv.skip(k as int);
                        assert(r.drop_first() =~= mv.skip(k + 1));
                        let is_event = match &metas[k] {
                            None => false,
                            Some(id) => str_eq(id.as_str(), "Event"),
                        };
                        proof {
                            assert(r[0] == mv[k as int]);
                            assert(is_event == (r[0] == Some("Event"@)));
                        }
                        if is_event {
                            match &item.struct_fields {
                                Some(fs) => {
                                    let names = indexed_names_exec(fs);
                                    let entry = (item.ident.clone(), names);
                                    let ghost ev = self@.events;
                                    let ghost en = (entry.0@, crate::idl::string_views(entry.1@));
                                    self.event_indexed_fields.push(entry);
                                    assert(self@.events =~= ev.push(en));
                                    assert(ev.push(en) + scan_derives(mv.skip(k + 1), name, fields) =~= ev + (
                                    seq![en] + scan_derives(mv.skip(k + 1), name, fields)));
                                },
                                None => {
                                    assert(Seq::<(Seq<char>, Seq<Seq<char>>)>::empty() + scan_derives(
                                        mv.skip(k + 1),
                                        name,
                                        fields,
                                    ) =~= scan_derives(mv.skip(k + 1), name, fields));
                                },
                            }
                        } else {
                            assert(Seq::<(Seq<char>, Seq<Seq<char>>)>::empty() + scan_derives(
                                mv.skip(k + 1),
                                name,
                                fields,
                            ) =~= scan_derives(mv.skip(k + 1), name, fields));
                        }
                        k = k + 1;
                    }
                    proof {
                        assert(mv.skip(k as int) =~= Seq::<Option<Seq<char>>>::empty());
                        assert(self@.events + Seq::<(Seq<char>, Seq<Seq<char>>)>::empty() =~= self@.events);
                        assert(self@.events == before_attr + scan_derives(mv, name, fields));
                        assert(before_attr + scan_attrs(rest, name, fields) =~= self@.events + scan_attrs(
                            item.attrs@.skip(a + 1),
                            name,
                            fields,
                        ));
                    }
                },
            }
            a = a + 1;
        }
        assert(item.attrs@.skip(a as int) =~= Seq::<AttrShape>::empty());
        assert(self@.events + Seq::<(Seq<char>, Seq<Seq<char>>)>::empty() =~= self@.events);
    }

    /// Notes a `mantle::service!` invocation (any path ending in `mantle::service`).
    pub fn visit_mac(&mut self, mac: &MacroCall)
        ensures
            final(self)@.events == old(self)@.events,
            final(self)@.services == if crate::mantle_build::spec_path_ends_with(
                crate::idl::string_views(mac.path@),
                seq!["mantle"@, "service"@],
            ) {
                old(self)@.services.push((mac.span, mac.ident@))
            } else {
                old(self)@.services
            },
    {
        let suffix: [&str; 2] = ["mantle", "service"];
        let ends = crate::mantle_build::path_ends_with(&mac.path, &suffix);
        proof {
            assert(suffix@.map_values(|s: &str| s@) =~= seq!["mantle"@, "service"@]);
        }
        if ends {
            let ghost before = self.services@;
            let s = Service { span: mac.span, name: mac.ident.clone() };
            self.services.push(s);
            assert(service_views(self.services@) =~= service_views(before).push((mac.span, mac.ident@)));
        }
    }
}

/// An item of the service's `impl` that is neither public nor named `new`, wherever it
/// stands among the others, changes neither the RPCs collected nor the errors.
pub proof fn law_private_item_ignored(
    rpcs: Seq<(Seq<char>, SynMethodV)>,
    errors: Seq<RpcErrorV>,
    items: Seq<SynImplItem>,
    k: int,
    it: SynImplItem,
    service_ty: SynTyV,
)
    requires
        0 <= k <= items.len(),
        !it.is_pub,
        it.ident@ != "new"@,
    ensures
        impl_items_step(rpcs, errors, items.insert(k, it), service_ty) == impl_items_step(
            rpcs,
            errors,
            items,
            service_ty,
        ),
    decreases items.len(),
{
    let longer = items.insert(k, it);
    if k == items.len() {
        assert(longer.drop_last() =~= items);
        assert(longer.last() == it);
    } else {
        law_private_item_ignored(rpcs, errors, items.drop_last(), k, it, service_ty);
        assert(longer.drop_last() =~= items.drop_last().insert(k, it));
        assert(longer.last() == items.last());
    }
}

/// Visiting the service's `impl` with one more method that is neither public nor
/// named `new` leaves the collector exactly as visiting it without that method.
pub proof fn law_visit_ignores_private_item(c: CollectorV, a: SynItem, b: SynItem, k: int, it: SynImplItem)
    requires
        a.kind matches SynItemKind::Impl { is_trait_impl: ta, self_ty: sa, items: ia }
            && b.kind matches SynItemKind::Impl { is_trait_impl: tb, self_ty: sb, items: ib }
            && ta == tb && sa@ == sb@ && 0 <= k <= ia@.len() && ib@ == ia@.insert(k, it),
        b.ident@ == a.ident@,
        b.span == a.span,
        !it.is_pub,
        it.ident@ != "new"@,
    ensures
        spec_visit_item(c, b) == spec_visit_item(c, a),
{
    if let SynItemKind::Impl { is_trait_impl: _, self_ty, items } = a.kind {
        law_private_item_ignored(c.rpcs, c.errors, items@, k, it, self_ty@);
    }
}

} // verus!
