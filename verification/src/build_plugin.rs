//! The decisions of the build's compiler callbacks: which service to build, what to
//! report, whether compilation goes on, and which type definitions the interface
//! defines or imports, with the versions of the crates it imports them from.
use vstd::prelude::*;
use crate::idl::{join3, str_eq};
use crate::path::{str_chars, string_from_chars};
use crate::syntax_pass::{
    rpc_error_views, rpc_views, service_views, RpcError, RpcErrorV, Service, Span, SynMethod,
    SynMethodV,
};

verus! {

// ---------------------------------------------------------------- after parsing

/// What the build does once it has found the crate's `mantle::service!` invocations.
pub enum ServiceChoice {
    /// No invocation: there is nothing to build, and compilation stops.
    NoService,
    /// More than one: the second is reported, and compilation stops.
    MultipleServices { second: Span },
    /// The one service to build.
    Main(String),
}

pub enum ServiceChoiceV {
    NoService,
    MultipleServices { second: Span },
    Main(Seq<char>),
}

impl View for ServiceChoice {
    type V = ServiceChoiceV;

    open spec fn view(&self) -> ServiceChoiceV {
        match self {
            ServiceChoice::NoService => ServiceChoiceV::NoService,
            ServiceChoice::MultipleServices { second } => ServiceChoiceV::MultipleServices { second: *second },
            ServiceChoice::Main(name) => ServiceChoiceV::Main(name@),
        }
    }
}

pub open spec fn spec_choose_service(services: Seq<(Span, Seq<char>)>) -> ServiceChoiceV {
    if services.len() == 0 {
        ServiceChoiceV::NoService
    } else if services.len() == 1 {
        ServiceChoiceV::Main(services[0].1)
    } else {
        ServiceChoiceV::MultipleServices { second: services[1].0 }
    }
}

/// The service to build, out of the crate's `mantle::service!` invocations.
pub fn choose_service(services: &Vec<Service>) -> (r: ServiceChoice)
    ensures
        r@ == spec_choose_service(service_views(services@)),
{
    if services.len() == 0 {
        ServiceChoice::NoService
    } else if services.len() == 1 {
        ServiceChoice::Main(services[0].name.clone())
    } else {
        ServiceChoice::MultipleServices { second: services[1].span }
    }
}

impl ServiceChoice {
    /// What the build reports of more than one service.
    pub fn message(&self) -> (r: Option<String>)
        ensures
            r matches Some(m) ==> self@ is MultipleServices && m@
                == "Multiple invocations of `mantle::service!`. Second occurrence here:"@,
            r is None ==> !(self@ is MultipleServices),
    {
        match self {
            ServiceChoice::MultipleServices { .. } => Some(
                string_from_chars(
                    str_chars("Multiple invocations of `mantle::service!`. Second occurrence here:").as_slice(),
                ),
            ),
            _ => None,
        }
    }
}

/// What the build does once it has collected the service's RPC methods.
pub enum ParsedStep {
    /// Some method is malformed: each error is reported, and compilation stops.
    Report(Vec<RpcError>),
    /// There is no `new`: the message is reported at the service's struct, and
    /// compilation stops.
    MissingConstructor { struct_span: Span, message: String },
    /// There is more than one `new`: compilation goes on, for the compiler to report it.
    Continue,
    /// The dispatcher is generated for the constructor and the other methods, in
    /// order, and compilation goes on.
    Generate { ctor: SynMethod, rpcs: Vec<(String, SynMethod)> },
}

pub enum ParsedStepV {
    Report(Seq<RpcErrorV>),
    MissingConstructor { struct_span: Span, message: Seq<char> },
    Continue,
    Generate { ctor: SynMethodV, rpcs: Seq<(Seq<char>, SynMethodV)> },
}

impl View for ParsedStep {
    type V = ParsedStepV;

    open spec fn view(&self) -> ParsedStepV {
        match self {
            ParsedStep::Report(es) => ParsedStepV::Report(rpc_error_views(es@)),
            ParsedStep::MissingConstructor { struct_span, message } => ParsedStepV::MissingConstructor {
                struct_span: *struct_span,
                message: message@,
            },
            ParsedStep::Continue => ParsedStepV::Continue,
            ParsedStep::Generate { ctor, rpcs } => ParsedStepV::Generate { ctor: ctor@, rpcs: rpc_views(rpcs@) },
        }
    }
}

/// The methods named `new`, in order.
pub open spec fn news(rpcs: Seq<(Seq<char>, SynMethodV)>) -> Seq<(Seq<char>, SynMethodV)>
    decreases rpcs.len(),
{
    if rpcs.len() == 0 {
        seq![]
    } else if rpcs.last().0 == "new"@ {
        news(rpcs.drop_last()).push(rpcs.last())
    } else {
        news(rpcs.drop_last())
    }
}

/// The other methods, in order.
pub open spec fn non_news(rpcs: Seq<(Seq<char>, SynMethodV)>) -> Seq<(Seq<char>, SynMethodV)>
    decreases rpcs.len(),
{
    if rpcs.len() == 0 {
        seq![]
    } else if rpcs.last().0 == "new"@ {
        non_news(rpcs.drop_last())
    } else {
        non_news(rpcs.drop_last()).push(rpcs.last())
    }
}

/// Splitting off the constructor loses no method: each is either a `new` or
/// dispatched.
pub proof fn law_split_keeps_methods(rpcs: Seq<(Seq<char>, SynMethodV)>)
    ensures
        news(rpcs).len() + non_news(rpcs).len() == rpcs.len(),
        forall|k: int| 0 <= k < rpcs.len() ==> (news(rpcs).contains(#[trigger] rpcs[k]) || non_news(rpcs).contains(rpcs[k])),
    decreases rpcs.len(),
{
    if rpcs.len() > 0 {
        let p = rpcs.drop_last();
        law_split_keeps_methods(p);
        assert forall|k: int| 0 <= k < rpcs.len() implies (news(rpcs).contains(#[trigger] rpcs[k]) || non_news(rpcs).contains(rpcs[k])) by {
            if k < rpcs.len() - 1 {
                assert(rpcs[k] == p[k]);
                if news(p).contains(p[k]) {
                    let j = choose|j: int| 0 <= j < news(p).len() && news(p)[j] == p[k];
                    assert(news(rpcs)[j] == news(p)[j]);
                } else {
                    let j = choose|j: int| 0 <= j < non_news(p).len() && non_news(p)[j] == p[k];
                    assert(non_news(rpcs)[j] == non_news(p)[j]);
                }
            } else if rpcs.last().0 == "new"@ {
                assert(news(rpcs)[news(rpcs).len() - 1] == rpcs.last());
            } else {
                assert(non_news(rpcs)[non_news(rpcs).len() - 1] == rpcs.last());
            }
        }
    }
}

pub open spec fn missing_ctor_message(service: Seq<char>) -> Seq<char> {
    "Missing definition of `"@ + service + "::new`."@
}

pub open spec fn spec_after_rpcs(
    service: Seq<char>,
    struct_span: Span,
    rpcs: Result<Seq<(Seq<char>, SynMethodV)>, Seq<RpcErrorV>>,
) -> ParsedStepV {
    match rpcs {
        Err(es) => ParsedStepV::Report(es),
        Ok(rs) => if news(rs).len() == 0 {
            ParsedStepV::MissingConstructor { struct_span, message: missing_ctor_message(service) }
        } else if news(rs).len() == 1 {
            ParsedStepV::Generate { ctor: news(rs)[0].1, rpcs: non_news(rs) }
        } else {
            ParsedStepV::Continue
        },
    }
}

pub open spec fn rpcs_result_view(r: Result<Vec<(String, SynMethod)>, Vec<RpcError>>) -> Result<
    Seq<(Seq<char>, SynMethodV)>,
    Seq<RpcErrorV>,
> {
    match r {
        Ok(rs) => Ok(rpc_views(rs@)),
        Err(es) => Err(rpc_error_views(es@)),
    }
}

/// What the build does with the service's RPC methods (or the errors found in them):
/// `new` is the constructor, and the others are dispatched.
pub fn after_rpcs(
    service: &str,
    struct_span: Span,
    rpcs: Result<Vec<(String, SynMethod)>, Vec<RpcError>>,
) -> (r: ParsedStep)
    ensures
        r@ == spec_after_rpcs(service@, struct_span, rpcs_result_view(rpcs)),
{
    let mut rs = match rpcs {
        Err(es) => return ParsedStep::Report(es),
        Ok(rs) => rs,
    };
    let ghost all = rpc_views(rs@);
    let _len = rs.len();
    assert(all.len() == _len);
    let mut ctors: Vec<(String, SynMethod)> = Vec::new();
    let mut others: Vec<(String, SynMethod)> = Vec::new();
    let mut k: usize = 0;
    while rs.len() > 0
        invariant
            all.len() <= usize::MAX,
            k + rs@.len() == all.len(),
            rpc_views(rs@) == all.skip(k as int),
            rpc_views(ctors@) == news(all.take(k as int)),
            rpc_views(others@) == non_news(all.take(k as int)),
        decreases rs@.len(),
    {
        let ghost before = rs@;
        let p = rs.remove(0);
        proof {
            assert(rpc_views(before)[0] == all[k as int]);
            assert(all.take(k + 1).drop_last() =~= all.take(k as int));
            assert(rs@ =~= before.subrange(1, before.len() as int));
            assert forall|j: int| 0 <= j < rs@.len() implies #[trigger] rpc_views(rs@)[j] == all.skip(k + 1)[j] by {
                assert(rs@[j] == before[j + 1]);
                assert(rpc_views(before)[j + 1] == all.skip(k as int)[j + 1]);
            }
            assert(rpc_views(rs@) =~= all.skip(k + 1));
        }
        let ghost pv = (p.0@, p.1@);
        if str_eq(p.0.as_str(), "new") {
            let ghost bc = ctors@;
            ctors.push(p);
            proof {
                assert(rpc_views(ctors@) =~= rpc_views(bc).push(pv));
            }
        } else {
            let ghost bo = others@;
            others.push(p);
            proof {
                assert(rpc_views(others@) =~= rpc_views(bo).push(pv));
            }
        }
        k = k + 1;
    }
    proof {
        assert(all.take(k as int) =~= all);
    }
    if ctors.len() == 0 {
        ParsedStep::MissingConstructor { struct_span, message: join3("Missing definition of `", service, "::new`.") }
    } else if ctors.len() == 1 {
        let (_, ctor) = ctors.remove(0);
        ParsedStep::Generate { ctor, rpcs: others }
    } else {
        ParsedStep::Continue
    }
}

// ---------------------------------------------------------------- after analysis

/// Text order: char by char, a prefix before what extends it.
pub open spec fn lex_lt(a: Seq<char>, b: Seq<char>) -> bool
    decreases a.len(),
{
    if a.len() == 0 {
        b.len() > 0
    } else if b.len() == 0 {
        false
    } else if a[0] != b[0] {
        a[0] < b[0]
    } else {
        lex_lt(a.drop_first(), b.drop_first())
    }
}

proof fn lemma_lex_irrefl(a: Seq<char>)
    ensures
        !lex_lt(a, a),
    decreases a.len(),
{
    if a.len() > 0 {
        lemma_lex_irrefl(a.drop_first());
    }
}

proof fn lemma_lex_total(a: Seq<char>, b: Seq<char>)
    ensures
        a == b || lex_lt(a, b) || lex_lt(b, a),
    decreases a.len(),
{
    if a.len() > 0 && b.len() > 0 && a[0] == b[0] {
        lemma_lex_total(a.drop_first(), b.drop_first());
        if a.drop_first() == b.drop_first() {
            assert(a =~= b) by {
                assert forall|i: int| 0 <= i < a.len() implies a[i] == b[i] by {
                    if i > 0 {
                        assert(a[i] == a.drop_first()[i - 1]);
                        assert(b[i] == b.drop_first()[i - 1]);
                    }
                }
            }
        }
    } else if a.len() == 0 && b.len() == 0 {
        assert(a =~= b);
    }
}

proof fn lemma_lex_trans(a: Seq<char>, b: Seq<char>, c: Seq<char>)
    requires
        lex_lt(a, b),
        lex_lt(b, c),
    ensures
        lex_lt(a, c),
    decreases a.len(),
{
    if a.len() > 0 && a[0] == b[0] && b[0] == c[0] {
        lemma_lex_trans(a.drop_first(), b.drop_first(), c.drop_first());
    }
}

/// The order of imports: by crate name, then by version.
pub open spec fn import_lt(x: (Seq<char>, Seq<char>), y: (Seq<char>, Seq<char>)) -> bool {
    lex_lt(x.0, y.0) || (x.0 == y.0 && lex_lt(x.1, y.1))
}

proof fn lemma_import_order(x: (Seq<char>, Seq<char>), y: (Seq<char>, Seq<char>), z: (Seq<char>, Seq<char>))
    ensures
        !import_lt(x, x),
        x == y || import_lt(x, y) || import_lt(y, x),
        import_lt(x, y) && import_lt(y, z) ==> import_lt(x, z),
{
    lemma_lex_irrefl(x.0);
    lemma_lex_irrefl(x.1);
    lemma_lex_total(x.0, y.0);
    lemma_lex_total(x.1, y.1);
    if import_lt(x, y) && import_lt(y, z) {
        if lex_lt(x.0, y.0) && lex_lt(y.0, z.0) {
            lemma_lex_trans(x.0, y.0, z.0);
        } else if lex_lt(x.1, y.1) && lex_lt(y.1, z.1) && x.0 == y.0 && y.0 == z.0 {
            lemma_lex_trans(x.1, y.1, z.1);
        }
    }
}

/// The order of the definitions: by id, an item before the same id as an event.
pub open spec fn def_key(x: (u64, bool)) -> int {
    x.0 * 2 + if x.1 { 1int } else { 0int }
}

/// Each entry before the next, in the given order (so each once).
pub open spec fn imports_sorted(s: Seq<(Seq<char>, Seq<char>)>) -> bool {
    forall|i: int, j: int| 0 <= i < j < s.len() ==> import_lt(#[trigger] s[i], #[trigger] s[j])
}

pub open spec fn defs_sorted(s: Seq<(u64, bool)>) -> bool {
    forall|i: int, j: int| 0 <= i < j < s.len() ==> def_key(#[trigger] s[i]) < def_key(#[trigger] s[j])
}

fn lex_less(a: &str, b: &str) -> (r: bool)
    ensures
        r == lex_lt(a@, b@),
{
    let x = str_chars(a);
    let y = str_chars(b);
    let mut i: usize = 0;
    assert(x@.skip(0) =~= x@);
    assert(y@.skip(0) =~= y@);
    while i < x.len() && i < y.len()
        invariant
            x@ == a@,
            y@ == b@,
            0 <= i <= x@.len(),
            i <= y@.len(),
            lex_lt(a@, b@) == lex_lt(x@.skip(i as int), y@.skip(i as int)),
        decreases x@.len() - i,
    {
        let ghost xs = x@.skip(i as int);
        let ghost ys = y@.skip(i as int);
        assert(xs[0] == x@[i as int] && ys[0] == y@[i as int]);
        if x[i] != y[i] {
            return x[i] < y[i];
        }
        assert(xs.drop_first() =~= x@.skip(i + 1));
        assert(ys.drop_first() =~= y@.skip(i + 1));
        i = i + 1;
    }
    if i == x.len() {
        assert(x@.skip(i as int).len() == 0);
        i < y.len()
    } else {
        assert(y@.skip(i as int).len() == 0);
        false
    }
}

fn import_less(x: &(String, String), y: &(String, String)) -> (r: bool)
    ensures
        r == import_lt((x.0@, x.1@), (y.0@, y.1@)),
{
    lex_less(x.0.as_str(), y.0.as_str()) || (str_eq(x.0.as_str(), y.0.as_str()) && lex_less(
        x.1.as_str(),
        y.1.as_str(),
    ))
}

/// Adds an import to a sorted list, unless it holds it already.
fn insert_import(v: &mut Vec<(String, String)>, x: (String, String))
    requires
        imports_sorted(pair_views(old(v)@)),
    ensures
        imports_sorted(pair_views(final(v)@)),
        forall|y: (Seq<char>, Seq<char>)|
            pair_views(final(v)@).contains(y) <==> (pair_views(old(v)@).contains(y) || y == (x.0@, x.1@)),
{
    let ghost s = pair_views(v@);
    let ghost xv = (x.0@, x.1@);
    let mut k: usize = 0;
    while k < v.len() && import_less(&v[k], &x)
        invariant
            0 <= k <= v@.len(),
            s == pair_views(v@),
            xv == (x.0@, x.1@),
            forall|i: int| 0 <= i < k ==> import_lt(#[trigger] s[i], xv),
        decreases v@.len() - k,
    {
        assert(s[k as int] == (v@[k as int].0@, v@[k as int].1@));
        k = k + 1;
    }
    if k < v.len() && str_eq(v[k].0.as_str(), x.0.as_str()) && str_eq(v[k].1.as_str(), x.1.as_str()) {
        assert(s[k as int] == xv);
        return;
    }
    proof {
        if k < s.len() {
            assert(s[k as int] == (v@[k as int].0@, v@[k as int].1@));
            assert(!import_lt(s[k as int], xv));
            assert(s[k as int] != xv);
            lemma_import_order(s[k as int], xv, xv);
        }
    }
    v.insert(k, x);
    proof {
        let t = pair_views(v@);
        assert(t =~= s.insert(k as int, xv));
        assert forall|i: int, j: int| 0 <= i < j < t.len() implies import_lt(#[trigger] t[i], #[trigger] t[j]) by {
            if j < k {
            } else if j == k {
            } else if i < k {
                lemma_import_order(s[i], xv, s[j - 1]);
                assert(import_lt(xv, s[k as int]));
                if j - 1 > k {
                    lemma_import_order(xv, s[k as int], s[j - 1]);
                }
            } else if i == k {
                if j - 1 > k {
                    lemma_import_order(xv, s[k as int], s[j - 1]);
                }
            } else {
            }
        }
        assert forall|y: (Seq<char>, Seq<char>)| t.contains(y) <==> (s.contains(y) || y == xv) by {
            if t.contains(y) {
                let j = choose|j: int| 0 <= j < t.len() && t[j] == y;
                if j < k {
                    assert(s[j] == y);
                } else if j > k {
                    assert(s[j - 1] == y);
                }
            }
            if s.contains(y) {
                let j = choose|j: int| 0 <= j < s.len() && s[j] == y;
                if j < k {
                    assert(t[j] == y);
                } else {
                    assert(t[j + 1] == y);
                }
            }
            if y == xv {
                assert(t[k as int] == y);
            }
        }
    }
}

/// Adds a definition to a sorted list, unless it holds it already.
fn insert_def(v: &mut Vec<(u64, bool)>, x: (u64, bool))
    requires
        defs_sorted(old(v)@),
    ensures
        defs_sorted(final(v)@),
        forall|y: (u64, bool)| final(v)@.contains(y) <==> (old(v)@.contains(y) || y == x),
{
    let ghost s = v@;
    let mut k: usize = 0;
    while k < v.len() && (v[k].0 < x.0 || (v[k].0 == x.0 && !v[k].1 && x.1))
        invariant
            0 <= k <= v@.len(),
            s == v@,
            forall|i: int| 0 <= i < k ==> def_key(#[trigger] s[i]) < def_key(x),
        decreases v@.len() - k,
    {
        k = k + 1;
    }
    if k < v.len() && v[k].0 == x.0 && v[k].1 == x.1 {
        assert(s[k as int] == x);
        return;
    }
    proof {
        if k < s.len() {
            assert(def_key(x) < def_key(s[k as int]));
        }
    }
    v.insert(k, x);
    proof {
        let t = v@;
        assert(t =~= s.insert(k as int, x));
        assert forall|i: int, j: int| 0 <= i < j < t.len() implies def_key(#[trigger] t[i]) < def_key(#[trigger] t[j]) by {
            if i < k && j > k {
                assert(def_key(x) < def_key(s[k as int]));
                if j - 1 > k {
                    assert(def_key(s[k as int]) < def_key(s[j - 1]));
                }
            } else if i == k && j - 1 > k {
                assert(def_key(s[k as int]) < def_key(s[j - 1]));
            }
        }
        assert forall|y: (u64, bool)| t.contains(y) <==> (s.contains(y) || y == x) by {
            if t.contains(y) {
                let j = choose|j: int| 0 <= j < t.len() && t[j] == y;
                if j < k {
                    assert(s[j] == y);
                } else if j > k {
                    assert(s[j - 1] == y);
                }
            }
            if s.contains(y) {
                let j = choose|j: int| 0 <= j < s.len() && s[j] == y;
                if j < k {
                    assert(t[j] == y);
                } else {
                    assert(t[j + 1] == y);
                }
            }
            if y == x {
                assert(t[k as int] == y);
            }
        }
    }
}


/// The name under which a package of `Cargo.lock` is looked up: its name with `_` for
/// each `-`.
pub open spec fn lock_key(name: Seq<char>) -> Seq<char> {
    name.map_values(|c: char| if c == '-' { '_' } else { c })
}

pub open spec fn pair_views(v: Seq<(String, String)>) -> Seq<(Seq<char>, Seq<char>)> {
    v.map_values(|p: (String, String)| (p.0@, p.1@))
}

/// The version of the last package (name, version) that the crate's name looks up (a
/// later entry replaces an earlier one), or `*` where none does.
pub open spec fn spec_crate_version(packages: Seq<(Seq<char>, Seq<char>)>, crate_name: Seq<char>) -> Seq<char>
    decreases packages.len(),
{
    if packages.len() == 0 {
        "*"@
    } else if lock_key(packages.last().0) == crate_name {
        packages.last().1
    } else {
        spec_crate_version(packages.drop_last(), crate_name)
    }
}

fn lock_key_matches(name: &str, crate_name: &str) -> (r: bool)
    ensures
        r == (lock_key(name@) == crate_name@),
{
    let n = str_chars(name);
    let c = str_chars(crate_name);
    if n.len() != c.len() {
        proof {
            assert(lock_key(name@).len() == name@.len());
        }
        return false;
    }
    let mut i: usize = 0;
    while i < n.len()
        invariant
            n@ == name@,
            c@ == crate_name@,
            n@.len() == c@.len(),
            0 <= i <= n@.len(),
            forall|j: int| 0 <= j < i ==> #[trigger] lock_key(name@)[j] == c@[j],
        decreases n@.len() - i,
    {
        let k = if n[i] == '-' { '_' } else { n[i] };
        if k != c[i] {
            proof {
                assert(lock_key(name@)[i as int] == k);
            }
            return false;
        }
        i = i + 1;
    }
    proof {
        assert(lock_key(name@) =~= crate_name@);
    }
    true
}

/// The version of a crate that the build depends on, out of `Cargo.lock`'s packages
/// (name and version, in order), or `*` where it lists none.
pub fn crate_version(packages: &Vec<(String, String)>, crate_name: &str) -> (r: String)
    ensures
        r@ == spec_crate_version(pair_views(packages@), crate_name@),
{
    let ghost ps = pair_views(packages@);
    let mut i: usize = packages.len();
    assert(ps.take(i as int) =~= ps);
    while i > 0
        invariant
            0 <= i <= packages@.len(),
            ps == pair_views(packages@),
            spec_crate_version(ps, crate_name@) == spec_crate_version(ps.take(i as int), crate_name@),
        decreases i,
    {
        proof {
            assert(ps.take(i as int).drop_last() =~= ps.take(i - 1));
        }
        if lock_key_matches(packages[i - 1].0.as_str(), crate_name) {
            return packages[i - 1].1.clone();
        }
        i = i - 1;
    }
    string_from_chars(str_chars("*").as_slice())
}

/// A type definition that the service's methods or events reach: its id, whether the
/// service's crate defines it, the crate that does, and whether it is an event.
pub struct CollectedAdt {
    pub id: u64,
    pub is_local: bool,
    pub crate_name: String,
    pub is_event: bool,
}

/// The definitions that the interface defines (each id with whether it is an event),
/// and the crates it imports (each name with its version).
pub struct DefinitionSplit {
    pub local: Vec<(u64, bool)>,
    pub imports: Vec<(String, String)>,
}

pub open spec fn defines(defs: Seq<CollectedAdt>, x: (u64, bool)) -> bool {
    exists|i: int| 0 <= i < defs.len() && #[trigger] defs[i].is_local && (defs[i].id, defs[i].is_event) == x
}

pub open spec fn imports_from(
    defs: Seq<CollectedAdt>,
    packages: Seq<(Seq<char>, Seq<char>)>,
    x: (Seq<char>, Seq<char>),
) -> bool {
    exists|i: int|
        0 <= i < defs.len() && !#[trigger] defs[i].is_local && x == (
            defs[i].crate_name@,
            spec_crate_version(packages, defs[i].crate_name@),
        )
}

/// Splits the definitions that the service reaches into those its crate defines and
/// the crates it imports, with their versions out of `Cargo.lock`'s packages; each
/// once, in order (definitions by id, imports by name then version), so that the same
/// crate always gives the same interface.
pub fn split_definitions(defs: &Vec<CollectedAdt>, packages: &Vec<(String, String)>) -> (r: DefinitionSplit)
    ensures
        defs_sorted(r.local@),
        r.local@.no_duplicates(),
        forall|x: (u64, bool)| r.local@.contains(x) <==> defines(defs@, x),
        imports_sorted(pair_views(r.imports@)),
        pair_views(r.imports@).no_duplicates(),
        forall|x: (Seq<char>, Seq<char>)|
            pair_views(r.imports@).contains(x) <==> imports_from(defs@, pair_views(packages@), x),
{
    let ghost ps = pair_views(packages@);
    let mut local: Vec<(u64, bool)> = Vec::new();
    let mut imports: Vec<(String, String)> = Vec::new();
    let mut i: usize = 0;
    while i < defs.len()
        invariant
            0 <= i <= defs@.len(),
            ps == pair_views(packages@),
            defs_sorted(local@),
            forall|x: (u64, bool)| local@.contains(x) <==> defines(defs@.take(i as int), x),
            imports_sorted(pair_views(imports@)),
            forall|x: (Seq<char>, Seq<char>)|
                pair_views(imports@).contains(x) <==> imports_from(defs@.take(i as int), ps, x),
        decreases defs@.len() - i,
    {
        let d = &defs[i];
        let ghost local0 = local@;
        let ghost imports0 = pair_views(imports@);
        let ghost pre = defs@.take(i as int);
        let ghost post = defs@.take(i + 1);
        proof {
            assert(post =~= pre.push(*d));
            assert forall|x: (u64, bool)| defines(post, x) <==> (defines(pre, x) || (d.is_local && x == (d.id, d.is_event))) by {
                if defines(post, x) {
                    let j = choose|j: int| 0 <= j < post.len() && #[trigger] post[j].is_local && (post[j].id, post[j].is_event) == x;
                    if j < pre.len() {
                        assert(pre[j] == post[j]);
                    }
                }
                if defines(pre, x) {
                    let j = choose|j: int| 0 <= j < pre.len() && #[trigger] pre[j].is_local && (pre[j].id, pre[j].is_event) == x;
                    assert(post[j] == pre[j]);
                }
                if d.is_local && x == (d.id, d.is_event) {
                    assert(post[pre.len() as int] == *d);
                }
            }
            assert forall|x: (Seq<char>, Seq<char>)| imports_from(post, ps, x) <==> (imports_from(pre, ps, x) || (!d.is_local && x == (d.crate_name@, spec_crate_version(ps, d.crate_name@)))) by {
                if imports_from(post, ps, x) {
                    let j = choose|j: int| 0 <= j < post.len() && !#[trigger] post[j].is_local && x == (post[j].crate_name@, spec_crate_version(ps, post[j].crate_name@));
                    if j < pre.len() {
                        assert(pre[j] == post[j]);
                    }
                }
                if imports_from(pre, ps, x) {
                    let j = choose|j: int| 0 <= j < pre.len() && !#[trigger] pre[j].is_local && x == (pre[j].crate_name@, spec_crate_version(ps, pre[j].crate_name@));
                    assert(post[j] == pre[j]);
                }
                if !d.is_local && x == (d.crate_name@, spec_crate_version(ps, d.crate_name@)) {
                    assert(post[pre.len() as int] == *d);
                }
            }
        }
        if d.is_local {
            insert_def(&mut local, (d.id, d.is_event));
        } else {
            let version = crate_version(packages, d.crate_name.as_str());
            insert_import(&mut imports, (d.crate_name.clone(), version));
        }
        proof {
            assert forall|y: (u64, bool)| local@.contains(y) <==> defines(post, y) by {
                assert(local0.contains(y) <==> defines(pre, y));
            }
            assert forall|y: (Seq<char>, Seq<char>)| pair_views(imports@).contains(y) <==> imports_from(post, ps, y) by {
                assert(imports0.contains(y) <==> imports_from(pre, ps, y));
            }
        }
        i = i + 1;
    }
    proof {
        assert(defs@.take(i as int) =~= defs@);
        assert forall|a: int, b: int| 0 <= a < b < local@.len() implies local@[a] != local@[b] by {
            assert(def_key(local@[a]) < def_key(local@[b]));
        }
        let pv = pair_views(imports@);
        assert forall|a: int, b: int| 0 <= a < b < pv.len() implies pv[a] != pv[b] by {
            assert(import_lt(pv[a], pv[b]));
            lemma_import_order(pv[a], pv[a], pv[a]);
        }
    }
    DefinitionSplit { local, imports }
}

} // verus!
