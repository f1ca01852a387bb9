//! What the IDL passes collect from a service's crate: its name, its RPC methods, and
//! the events it emits.
use vstd::prelude::*;
use crate::idl::{str_eq, FnShape};
use crate::syntax_pass::{opt_string_views, AttrShape, DefItem};

verus! {

/// The name of the service: the last item deriving `Service`.
pub open spec fn derives_service(metas: Seq<Option<Seq<char>>>) -> bool {
    exists|k: int| 0 <= k < metas.len() && metas[k] == Some("Service"@)
}

/// Whether an attribute derives `Service`.
pub open spec fn attr_derives_service(attr: AttrShape) -> bool {
    match attr.derives {
        Some(metas) => derives_service(opt_string_views(metas@)),
        None => false,
    }
}

/// Finds the service: the item that derives `Service`.
pub struct SyntaxPass {
    service_name: Option<String>,
}

pub open spec fn opt_view(o: Option<String>) -> Option<Seq<char>> {
    match o {
        Some(s) => Some(s@),
        None => None,
    }
}

impl SyntaxPass {
    pub closed spec fn spec_service_name(&self) -> Option<Seq<char>> {
        opt_view(self.service_name)
    }

    /// A pass that has found no service yet.
    pub fn new() -> (p: SyntaxPass)
        ensures
            p.spec_service_name() is None,
    {
        SyntaxPass { service_name: None }
    }

    /// The service found, if any.
    pub fn service_name(&self) -> (r: Option<String>)
        ensures
            opt_view(r) == self.spec_service_name(),
    {
        match &self.service_name {
            Some(s) => Some(s.clone()),
            None => None,
        }
    }

    /// Notes an item that derives `Service` as the service.
    pub fn visit_item(&mut self, item: &DefItem)
        ensures
            final(self).spec_service_name() == if exists|a: int|
                0 <= a < item.attrs@.len() && attr_derives_service(#[trigger] item.attrs@[a]) {
                Some(item.ident@)
            } else {
                old(self).spec_service_name()
            },
    {
        proof {
            reveal_strlit("Service");
        }
        let mut a: usize = 0;
        let mut found = false;
        while a < item.attrs.len()
            invariant
                0 <= a <= item.attrs@.len(),
                found == exists|b: int| 0 <= b < a && attr_derives_service(#[trigger] item.attrs@[b]),
            decreases item.attrs@.len() - a,
        {
            match &item.attrs[a].derives {
                Some(metas) => {
                    let mut k: usize = 0;
                    let mut here = false;
                    while k < metas.len()
                        invariant
                            0 <= k <= metas@.len(),
                            here == exists|j: int|
                                0 <= j < k && opt_string_views(metas@)[j] == Some("Service"@),
                        decreases metas@.len() - k,
                    {
                        let is_service = match &metas[k] {
                            Some(id) => str_eq(id.as_str(), "Service"),
                            None => false,
                        };
                        proof {
                            assert(opt_string_views(metas@)[k as int] == match metas@[k as int] {
                                Some(s) => Some(s@),
                                None => None::<Seq<char>>,
                            });
                        }
                        here = here || is_service;
                        k = k + 1;
                    }
                    if here {
                        found = true;
                    }
                    proof {
                        if !here {
                            assert(!derives_service(opt_string_views(metas@)));
                        }
                    }
                },
                None => {},
            }
            a = a + 1;
        }
        if found {
            self.service_name = Some(item.ident.clone());
        }
    }
}

/// An item of the analyzed crate as the RPC collectors see it: its id, and, for an
/// inherent `impl` of a path type, the last segment of that path.
pub struct HirItem {
    pub id: u64,
    pub inherent_impl_of: Option<String>,
}

/// An item of an `impl`: the id of the `impl`, its name, whether it is public, its
/// signature where it is a method, and the id of its body.
pub struct HirImplItem {
    pub parent: u64,
    pub ident: String,
    pub is_pub: bool,
    pub method: Option<FnShape>,
    pub body: u64,
}

/// Whether an item is an inherent `impl` of the named type.
pub open spec fn impl_of(item: HirItem, name: Seq<char>) -> bool {
    item.inherent_impl_of matches Some(t) && t@ == name
}

pub(crate) fn contains_id(v: &Vec<u64>, id: u64) -> (r: bool)
    ensures
        r == v@.contains(id),
{
    let mut i: usize = 0;
    while i < v.len()
        invariant
            0 <= i <= v@.len(),
            forall|k: int| 0 <= k < i ==> v@[k] != id,
        decreases v@.len() - i,
    {
        if v[i] == id {
            assert(v@[i as int] == id);
            return true;
        }
        i = i + 1;
    }
    false
}

fn impl_of_exec(item: &HirItem, name: &String) -> (r: bool)
    ensures
        r == impl_of(*item, name@),
{
    match &item.inherent_impl_of {
        Some(t) => str_eq(t.as_str(), name.as_str()),
        None => false,
    }
}

/// Collects the public methods defined in `impl <service>`.
pub struct RpcCollector {
    service_name: String,
    rpc_impls: Vec<u64>,
    rpcs: Vec<(String, FnShape)>,
}

pub struct RpcCollectorV {
    pub service_name: Seq<char>,
    pub rpc_impls: Seq<u64>,
    pub rpcs: Seq<(Seq<char>, FnShape)>,
}

pub open spec fn named_fn_views(v: Seq<(String, FnShape)>) -> Seq<(Seq<char>, FnShape)> {
    v.map_values(|p: (String, FnShape)| (p.0@, p.1))
}

impl View for RpcCollector {
    type V = RpcCollectorV;

    closed spec fn view(&self) -> RpcCollectorV {
        RpcCollectorV {
            service_name: self.service_name@,
            rpc_impls: self.rpc_impls@,
            rpcs: named_fn_views(self.rpcs@),
        }
    }
}

impl RpcCollector {
    pub fn new(service_name: String) -> (c: RpcCollector)
        ensures
            c@.service_name == service_name@,
            c@.rpc_impls == Seq::<u64>::empty(),
            c@.rpcs == Seq::<(Seq<char>, FnShape)>::empty(),
    {
        let c = RpcCollector { service_name, rpc_impls: Vec::new(), rpcs: Vec::new() };
        assert(c@.rpcs =~= seq![]);
        c
    }

    /// The collected RPC methods, in the order they were met.
    pub fn rpcs(&self) -> (r: &[(String, FnShape)])
        ensures
            named_fn_views(r@) == self@.rpcs,
    {
        self.rpcs.as_slice()
    }

    /// Notes an inherent `impl` of the service.
    pub fn visit_item(&mut self, item: &HirItem)
        ensures
            final(self)@.service_name == old(self)@.service_name,
            final(self)@.rpcs == old(self)@.rpcs,
            final(self)@.rpc_impls == if impl_of(*item, old(self)@.service_name) {
                old(self)@.rpc_impls.push(item.id)
            } else {
                old(self)@.rpc_impls
            },
    {
        if impl_of_exec(item, &self.service_name) {
            self.rpc_impls.push(item.id);
        }
    }

    /// Collects a public method of an inherent `impl` of the service.
    pub fn visit_impl_item(&mut self, impl_item: HirImplItem)
        ensures
            final(self)@.service_name == old(self)@.service_name,
            final(self)@.rpc_impls == old(self)@.rpc_impls,
            final(self)@.rpcs == if impl_item.method is Some && impl_item.is_pub
                && old(self)@.rpc_impls.contains(impl_item.parent) {
                old(self)@.rpcs.push((impl_item.ident@, impl_item.method->0))
            } else {
                old(self)@.rpcs
            },
    {
        if impl_item.is_pub && contains_id(&self.rpc_impls, impl_item.parent) {
            match impl_item.method {
                Some(decl) => {
                    let ghost before = self.rpcs@;
                    let ghost entry = (impl_item.ident@, decl);
                    self.rpcs.push((impl_item.ident, decl));
                    assert(named_fn_views(self.rpcs@) =~= named_fn_views(before).push(entry));
                },
                None => {},
            }
        }
    }
}

/// Collects the public methods defined in `impl <service>`, with their bodies.
pub struct AnalyzedRpcCollector {
    service_name: String,
    rpc_impls: Vec<u64>,
    rpcs: Vec<(String, FnShape, u64)>,
}

pub struct AnalyzedRpcCollectorV {
    pub service_name: Seq<char>,
    pub rpc_impls: Seq<u64>,
    pub rpcs: Seq<(Seq<char>, FnShape, u64)>,
}

pub open spec fn bodied_fn_views(v: Seq<(String, FnShape, u64)>) -> Seq<(Seq<char>, FnShape, u64)> {
    v.map_values(|p: (String, FnShape, u64)| (p.0@, p.1, p.2))
}

impl View for AnalyzedRpcCollector {
    type V = AnalyzedRpcCollectorV;

    closed spec fn view(&self) -> AnalyzedRpcCollectorV {
        AnalyzedRpcCollectorV {
            service_name: self.service_name@,
            rpc_impls: self.rpc_impls@,
            rpcs: bodied_fn_views(self.rpcs@),
        }
    }
}

impl AnalyzedRpcCollector {
    pub fn new(service_name: String) -> (c: AnalyzedRpcCollector)
        ensures
            c@.service_name == service_name@,
            c@.rpc_impls == Seq::<u64>::empty(),
            c@.rpcs == Seq::<(Seq<char>, FnShape, u64)>::empty(),
    {
        let c = AnalyzedRpcCollector { service_name, rpc_impls: Vec::new(), rpcs: Vec::new() };
        assert(c@.rpcs =~= seq![]);
        c
    }

    /// The collected RPC methods with their bodies, in the order they were met.
    pub fn rpcs(&self) -> (r: &[(String, FnShape, u64)])
        ensures
            bodied_fn_views(r@) == self@.rpcs,
    {
        self.rpcs.as_slice()
    }

    /// Notes an inherent `impl` of the service.
    pub fn visit_item(&mut self, item: &HirItem)
        ensures
            final(self)@.service_name == old(self)@.service_name,
            final(self)@.rpcs == old(self)@.rpcs,
            final(self)@.rpc_impls == if impl_of(*item, old(self)@.service_name) {
                old(self)@.rpc_impls.push(item.id)
            } else {
                old(self)@.rpc_impls
            },
    {
        if impl_of_exec(item, &self.service_name) {
            self.rpc_impls.push(item.id);
        }
    }

    /// Collects a public method of an inherent `impl` of the service, with its body.
    pub fn visit_impl_item(&mut self, impl_item: HirImplItem)
        ensures
            final(self)@.service_name == old(self)@.service_name,
            final(self)@.rpc_impls == old(self)@.rpc_impls,
            final(self)@.rpcs == if impl_item.method is Some && impl_item.is_pub
                && old(self)@.rpc_impls.contains(impl_item.parent) {
                old(self)@.rpcs.push((impl_item.ident@, impl_item.method->0, impl_item.body))
            } else {
                old(self)@.rpcs
            },
    {
        if impl_item.is_pub && contains_id(&self.rpc_impls, impl_item.parent) {
            match impl_item.method {
                Some(decl) => {
                    let ghost before = self.rpcs@;
                    let ghost entry = (impl_item.ident@, decl, impl_item.body);
                    self.rpcs.push((impl_item.ident, decl, impl_item.body));
                    assert(bodied_fn_views(self.rpcs@) =~= bodied_fn_views(before).push(entry));
                },
                None => {},
            }
        }
    }
}

// ---------------------------------------------------------------- emitted events

/// An expression of a method body as the event collector sees it: a method call, a
/// call of a path, or anything else; with its subexpressions, and the type definition
/// (by id) of its first argument's type (looking through one reference) where that
/// type is a struct, enum or union.
pub enum HirExpr {
    MethodCall { method: String, args: Vec<HirExpr>, first_arg_adt: Option<u64> },
    Call { callee: String, args: Vec<HirExpr>, first_arg_adt: Option<u64> },
    Other(Vec<HirExpr>),
}

pub open spec fn ends_with(s: Seq<char>, suffix: Seq<char>) -> bool {
    s.len() >= suffix.len() && s.skip(s.len() - suffix.len()) == suffix
}

/// Whether an expression emits an event: a method call of `emit`, or a call of a path
/// ending in `Event::emit`.
pub open spec fn is_emit(e: HirExpr) -> bool {
    match e {
        HirExpr::MethodCall { method, .. } => method@ == "emit"@,
        HirExpr::Call { callee, .. } => ends_with(callee@, "Event::emit"@),
        HirExpr::Other(_) => false,
    }
}

pub open spec fn children(e: HirExpr) -> Seq<HirExpr> {
    match e {
        HirExpr::MethodCall { args, .. } => args@,
        HirExpr::Call { args, .. } => args@,
        HirExpr::Other(es) => es@,
    }
}

pub open spec fn first_arg_adt(e: HirExpr) -> Option<u64> {
    match e {
        HirExpr::MethodCall { first_arg_adt, .. } => first_arg_adt,
        HirExpr::Call { first_arg_adt, .. } => first_arg_adt,
        HirExpr::Other(_) => None,
    }
}

/// The type definitions of the events that an expression emits, anywhere within it.
pub open spec fn emitted(e: HirExpr) -> Set<u64>
    decreases e,
{
    let here = if is_emit(e) && first_arg_adt(e) is Some {
        set![first_arg_adt(e)->0]
    } else {
        Set::empty()
    };
    here + match e {
        HirExpr::MethodCall { args, .. } => emitted_all(args@),
        HirExpr::Call { args, .. } => emitted_all(args@),
        HirExpr::Other(es) => emitted_all(es@),
    }
}

pub open spec fn emitted_all(es: Seq<HirExpr>) -> Set<u64>
    decreases es,
{
    if es.len() == 0 {
        Set::empty()
    } else {
        emitted_all(es.drop_last()) + emitted(es.last())
    }
}

/// Whether every emit in an expression has an argument (which the compiler
/// guarantees of a call that checks).
pub open spec fn emits_have_args(e: HirExpr) -> bool
    decreases e,
{
    (is_emit(e) ==> children(e).len() > 0) && match e {
        HirExpr::MethodCall { args, .. } => all_emits_have_args(args@),
        HirExpr::Call { args, .. } => all_emits_have_args(args@),
        HirExpr::Other(es) => all_emits_have_args(es@),
    }
}

pub open spec fn all_emits_have_args(es: Seq<HirExpr>) -> bool
    decreases es,
{
    if es.len() == 0 {
        true
    } else {
        all_emits_have_args(es.drop_last()) && emits_have_args(es.last())
    }
}

/// Collects the type definitions of the events that method bodies emit.
pub struct EventCollector {
    adt_defs: Vec<u64>,
}

impl View for EventCollector {
    type V = Set<u64>;

    closed spec fn view(&self) -> Set<u64> {
        self.adt_defs@.to_set()
    }
}

fn str_ends_with(s: &str, suffix: &str) -> (r: bool)
    ensures
        r == ends_with(s@, suffix@),
{
    let x = crate::path::str_chars(s);
    let p = crate::path::str_chars(suffix);
    if x.len() < p.len() {
        return false;
    }
    let off = x.len() - p.len();
    let mut i: usize = 0;
    while i < p.len()
        invariant
            x@ == s@,
            p@ == suffix@,
            off == x@.len() - p@.len(),
            x@.len() <= usize::MAX,
            0 <= i <= p@.len(),
            forall|k: int| 0 <= k < i ==> x@[off + k] == p@[k],
        decreases p@.len() - i,
    {
        if x[off + i] != p[i] {
            assert(x@.skip(off as int)[i as int] != p@[i as int]);
            return false;
        }
        i = i + 1;
    }
    assert(x@.skip(off as int) =~= p@);
    true
}

proof fn lemma_all_args(es: Seq<HirExpr>, i: int)
    requires
        all_emits_have_args(es),
        0 <= i < es.len(),
    ensures
        emits_have_args(es[i]),
    decreases es.len(),
{
    if i < es.len() - 1 {
        lemma_all_args(es.drop_last(), i);
    }
}

impl EventCollector {
    /// The list of type definitions holds each once.
    pub closed spec fn wf(&self) -> bool {
        self.adt_defs@.no_duplicates()
    }

    pub fn new() -> (c: EventCollector)
        ensures
            c.wf(),
            c@ == Set::<u64>::empty(),
    {
        let c = EventCollector { adt_defs: Vec::new() };
        assert(c@ =~= Set::<u64>::empty());
        c
    }

    /// The type definitions collected, each once.
    pub fn adt_defs(self) -> (r: Vec<u64>)
        requires
            self.wf(),
        ensures
            r@.to_set() == self@,
            r@.no_duplicates(),
    {
        self.adt_defs
    }

    fn insert(&mut self, id: u64)
        requires
            old(self).wf(),
        ensures
            final(self).wf(),
            final(self)@ == old(self)@.insert(id),
    {
        if !contains_id(&self.adt_defs, id) {
            let ghost before = self.adt_defs@;
            self.adt_defs.push(id);
            proof {
                assert forall|x: u64| #[trigger] self.adt_defs@.contains(x) <==> (before.contains(x) || x == id) by {
                    if before.contains(x) {
                        let k = choose|k: int| 0 <= k < before.len() && before[k] == x;
                        assert(self.adt_defs@[k] == x);
                    }
                    if x == id {
                        assert(self.adt_defs@[before.len() as int] == x);
                    }
                    if self.adt_defs@.contains(x) {
                        let k = choose|k: int| 0 <= k < self.adt_defs@.len() && self.adt_defs@[k] == x;
                        if k < before.len() {
                            assert(before[k] == x);
                        }
                    }
                }
                assert forall|a: int, b: int|
                    0 <= a < b < self.adt_defs@.len() implies self.adt_defs@[a] != self.adt_defs@[b] by {
                    if b == self.adt_defs@.len() - 1 {
                        assert(old(self).adt_defs@.contains(self.adt_defs@[a]));
                    }
                }
            }
        }
        proof {
            assert(self.adt_defs@.to_set() =~= old(self).adt_defs@.to_set().insert(id));
        }
    }

    /// Notes the events that an expression emits, anywhere within it.
    pub fn visit_expr(&mut self, expr: &HirExpr)
        requires
            old(self).wf(),
            emits_have_args(*expr),
        ensures
            final(self).wf(),
            final(self)@ == old(self)@ + emitted(*expr),
        decreases expr,
    {
        let (emits, adt) = match expr {
            HirExpr::MethodCall { method, first_arg_adt, .. } => (str_eq(method.as_str(), "emit"), *first_arg_adt),
            HirExpr::Call { callee, first_arg_adt, .. } => (str_ends_with(callee.as_str(), "Event::emit"), *first_arg_adt),
            HirExpr::Other(_) => (false, None),
        };
        let ghost start = self@;
        if emits {
            match adt {
                Some(id) => self.insert(id),
                None => {},
            }
        }
        let ghost here = if is_emit(*expr) && first_arg_adt(*expr) is Some {
            set![first_arg_adt(*expr)->0]
        } else {
            Set::<u64>::empty()
        };
        assert(self@ =~= start + here);
        let kids = match expr {
            HirExpr::MethodCall { args, .. } => args,
            HirExpr::Call { args, .. } => args,
            HirExpr::Other(es) => es,
        };
        let ghost mid = self@;
        let mut i: usize = 0;
        assert(emitted_all(kids@.take(0)) =~= Set::<u64>::empty());
        assert(mid + Set::<u64>::empty() =~= mid);
        while i < kids.len()
            invariant
                0 <= i <= kids@.len(),
                children(*expr) == kids@,
                emits_have_args(*expr),
                self.wf(),
                self@ == mid + emitted_all(kids@.take(i as int)),
            decreases kids@.len() - i,
        {
            proof {
                assert(kids@.take(i + 1).drop_last() =~= kids@.take(i as int));
                lemma_children_args(*expr, i as int);
                assert(decreases_to!(*expr => kids@[i as int]));
            }
            self.visit_expr(&kids[i]);
            proof {
                assert(self@ =~= mid + emitted_all(kids@.take(i + 1)));
            }
            i = i + 1;
        }
        assert(kids@.take(i as int) =~= kids@);
        assert(self@ =~= start + emitted(*expr));
    }
}

proof fn lemma_children_args(e: HirExpr, i: int)
    requires
        emits_have_args(e),
        0 <= i < children(e).len(),
    ensures
        emits_have_args(children(e)[i]),
{
    lemma_all_args(children(e), i);
}

} // verus!
