//! Decisions of the build wrapper: which compiler arguments it reads and forwards,
//! and which crates and paths it recognizes.
use vstd::prelude::*;
use crate::idl::{
    error_views, import_pair_views, rpc_views, spec_convert_ctor, spec_convert_function,
    spec_convert_type_def, starts_with, str_eq, str_starts_with, string_views, AdtShape, FnShape,
    RpcFieldV, RpcFunction, RpcFunctionV, RpcImport, RpcImportV, RpcType, RpcTypeDef, RpcTypeDefV,
    RpcTypeV, StateConstructor, TypeRules, UnsupportedTypeError, UnsupportedV, all_args_complete,
    args_complete, function_views, import_views, word_new, SelfKind,
};
use crate::path::string_from_chars;
use crate::path::str_chars;

verus! {

/// Crates whose types the build knows by name: `std`, `core`, `alloc` and the
/// `mantle` crates.
pub open spec fn spec_is_std(crate_name: Seq<char>) -> bool {
    crate_name == "std"@ || crate_name == "core"@ || crate_name == "alloc"@ || starts_with(
        crate_name,
        "mantle"@,
    )
}

pub fn is_std(crate_name: &str) -> (r: bool)
    ensures
        r == spec_is_std(crate_name@),
{
    str_eq(crate_name, "std") || str_eq(crate_name, "core") || str_eq(crate_name, "alloc")
        || str_starts_with(crate_name, "mantle")
}

/// Whether the path's last segments are the suffix's segments.
pub open spec fn spec_path_ends_with(path: Seq<Seq<char>>, suffix: Seq<Seq<char>>) -> bool {
    &&& suffix.len() <= path.len()
    &&& forall|k: int|
        0 <= k < suffix.len() ==> #[trigger] path[path.len() - 1 - k] == suffix[suffix.len() - 1 - k]
}

/// Returns whether the path (its segments) ends with `suffix`,
/// e.g. `crate::mantle::service` ends with `["mantle", "service"]`.
pub fn path_ends_with(path: &Vec<String>, suffix: &[&str]) -> (r: bool)
    ensures
        r == spec_path_ends_with(string_views(path@), suffix@.map_values(|s: &str| s@)),
{
    let ghost p = string_views(path@);
    let ghost s = suffix@.map_values(|s: &str| s@);
    if suffix.len() > path.len() {
        return false;
    }
    let mut k: usize = 0;
    while k < path.len() && k < suffix.len()
        invariant
            p == string_views(path@),
            s == suffix@.map_values(|s: &str| s@),
            suffix@.len() <= path@.len(),
            0 <= k <= path@.len(),
            k <= suffix@.len(),
            forall|j: int| 0 <= j < k ==> #[trigger] p[p.len() - 1 - j] == s[s.len() - 1 - j],
        decreases path@.len() - k,
    {
        let a = path[path.len() - 1 - k].as_str();
        let b = suffix[suffix.len() - 1 - k];
        proof {
            assert(p[p.len() - 1 - k] == a@);
            assert(s[s.len() - 1 - k] == b@);
        }
        if !str_eq(a, b) {
            return false;
        }
        k = k + 1;
    }
    true
}

/// Returns the argument after the first occurrence of `arg`, if any.
pub fn get_arg<'a>(arg: &str, args: &'a [String]) -> (r: Option<&'a String>)
    ensures
        match r {
            Some(v) => exists|i: int|
                #![trigger args@[i]]
                0 <= i < args@.len() - 1 && args@[i]@ == arg@ && (forall|j: int| 0 <= j < i ==> args@[j]@ != arg@)
                    && v@ == args@[i + 1]@,
            None => forall|i: int|
                #![trigger args@[i]]
                0 <= i < args@.len() && args@[i]@ == arg@ ==> (i == args@.len() - 1 || exists|j: int|
                    0 <= j < i && args@[j]@ == arg@),
        },
{
    let mut i: usize = 0;
    while i < args.len()
        invariant
            0 <= i <= args@.len(),
            forall|j: int| 0 <= j < i ==> args@[j]@ != arg@,
        decreases args@.len() - i,
    {
        if str_eq(args[i].as_str(), arg) {
            if i + 1 < args.len() {
                return Some(&args[i + 1]);
            } else {
                return None;
            }
        }
        i = i + 1;
    }
    None
}

pub open spec fn ends_with(s: Seq<char>, suffix: Seq<char>) -> bool {
    s.len() >= suffix.len() && s.skip(s.len() - suffix.len()) == suffix
}

/// Reads the compiler's arguments from the left: whether the next one is skipped,
/// and the arguments kept so far. The first argument (the compiler) is skipped, as
/// is the value after `-C` and after `--crate-name`; `--crate-type` is kept but its
/// value becomes `rlib`; source files (`*.rs`) are left out.
pub open spec fn import_args_state(args: Seq<Seq<char>>) -> (bool, Seq<Seq<char>>)
    decreases args.len(),
{
    if args.len() == 0 {
        (true, seq![])
    } else {
        let (skip, kept) = import_args_state(args.drop_last());
        let arg = args.last();
        if skip {
            (false, kept)
        } else if arg == "-C"@ {
            (true, kept)
        } else if arg == "--crate-type"@ {
            (true, kept.push(arg).push("rlib"@))
        } else if arg == "--crate-name"@ {
            (true, kept)
        } else if ends_with(arg, ".rs"@) {
            (false, kept)
        } else {
            (false, kept.push(arg))
        }
    }
}

fn str_ends_with(s: &str, suffix: &str) -> (r: bool)
    ensures
        r == ends_with(s@, suffix@),
{
    let x = str_chars(s);
    let p = str_chars(suffix);
    if x.len() < p.len() {
        return false;
    }
    let off = x.len() - p.len();
    let mut i: usize = 0;
    while i < p.len()
        invariant
            x@ == s@,
            p@ == suffix@,
            off == x@.len() - p@.len(),
            x@.len() <= usize::MAX,
            0 <= i <= p@.len(),
            forall|k: int| 0 <= k < i ==> x@[off + k] == p@[k],
        decreases p@.len() - i,
    {
        if x[off + i] != p[i] {
            assert(x@.skip(off as int)[i as int] != p@[i as int]);
            return false;
        }
        i = i + 1;
    }
    assert(x@.skip(off as int) =~= p@);
    true
}

/// The arguments to compile the imported services with.
pub fn collect_import_rustc_args(args: &[String]) -> (r: Vec<String>)
    ensures
        string_views(r@) == import_args_state(string_views(args@)).1,
{
    let ghost a = string_views(args@);
    let mut import_args: Vec<String> = Vec::new();
    let mut skip = true;
    let mut i: usize = 0;
    while i < args.len()
        invariant
            a == string_views(args@),
            0 <= i <= args@.len(),
            (skip, string_views(import_args@)) == import_args_state(a.take(i as int)),
        decreases args@.len() - i,
    {
        proof {
            assert(a.take(i + 1).drop_last() =~= a.take(i as int));
            assert(a.take(i + 1).last() == args@[i as int]@);
            reveal_strlit("rlib");
        }
        let arg = &args[i];
        let ghost before = import_args@;
        if skip {
            skip = false;
        } else if str_eq(arg.as_str(), "-C") {
            skip = true;
        } else if str_eq(arg.as_str(), "--crate-type") {
            import_args.push(arg.clone());
            import_args.push(String::from_str("rlib"));
            assert(string_views(import_args@) =~= string_views(before).push(arg@).push("rlib"@));
            skip = true;
        } else if str_eq(arg.as_str(), "--crate-name") {
            skip = true;
        } else if str_ends_with(arg.as_str(), ".rs") {
        } else {
            import_args.push(arg.clone());
            assert(string_views(import_args@) =~= string_views(before).push(arg@));
        }
        i = i + 1;
    }
    assert(a.take(i as int) =~= a);
    import_args
}

// ---------------------------------------------------------------- the build's interface

/// A field of a struct or event of the build's interface.
pub struct Field {
    pub name: String,
    pub ty: RpcType,
    /// Whether the field is an indexed topic of an event.
    pub indexed: bool,
}

/// A type that the build's interface defines.
pub enum TypeDef {
    Struct { name: String, fields: Vec<Field> },
    Enum { name: String, variants: Vec<String> },
    Event { name: String, fields: Vec<Field> },
}

/// The interface that the build packs into a service.
pub struct Interface {
    pub name: String,
    pub namespace: String,
    pub imports: Vec<RpcImport>,
    pub type_defs: Vec<TypeDef>,
    pub constructor: StateConstructor,
    pub functions: Vec<RpcFunction>,
    /// Whether the service has a `default` function (no inputs, no output).
    pub has_default_function: bool,
    pub mantle_build_version: String,
}

pub struct FieldV {
    pub name: Seq<char>,
    pub ty: RpcTypeV,
    pub indexed: bool,
}

pub enum TypeDefV {
    Struct { name: Seq<char>, fields: Seq<FieldV> },
    Enum { name: Seq<char>, variants: Seq<Seq<char>> },
    Event { name: Seq<char>, fields: Seq<FieldV> },
}

pub struct InterfaceV {
    pub name: Seq<char>,
    pub namespace: Seq<char>,
    pub imports: Seq<RpcImportV>,
    pub type_defs: Seq<TypeDefV>,
    pub constructor: Seq<RpcTypeV>,
    pub functions: Seq<RpcFunctionV>,
    pub has_default_function: bool,
    pub version: Seq<char>,
}

impl View for Field {
    type V = FieldV;

    open spec fn view(&self) -> FieldV {
        FieldV { name: self.name@, ty: self.ty@, indexed: self.indexed }
    }
}

pub open spec fn build_field_views(v: Seq<Field>) -> Seq<FieldV> {
    v.map_values(|f: Field| f@)
}

impl View for TypeDef {
    type V = TypeDefV;

    open spec fn view(&self) -> TypeDefV {
        match self {
            TypeDef::Struct { name, fields } => TypeDefV::Struct {
                name: name@,
                fields: build_field_views(fields@),
            },
            TypeDef::Enum { name, variants } => TypeDefV::Enum {
                name: name@,
                variants: string_views(variants@),
            },
            TypeDef::Event { name, fields } => TypeDefV::Event {
                name: name@,
                fields: build_field_views(fields@),
            },
        }
    }
}

pub open spec fn build_type_def_views(v: Seq<TypeDef>) -> Seq<TypeDefV> {
    v.map_values(|d: TypeDef| d@)
}

impl View for Interface {
    type V = InterfaceV;

    open spec fn view(&self) -> InterfaceV {
        InterfaceV {
            name: self.name@,
            namespace: self.namespace@,
            imports: import_views(self.imports@),
            type_defs: build_type_def_views(self.type_defs@),
            constructor: rpc_views(self.constructor.inputs@),
            functions: function_views(self.functions@),
            has_default_function: self.has_default_function,
            version: self.mantle_build_version@,
        }
    }
}

/// Fields that are not (yet) indexed.
pub open spec fn unindexed(fs: Seq<RpcFieldV>) -> Seq<FieldV> {
    fs.map_values(|f: RpcFieldV| FieldV { name: f.name, ty: f.ty, indexed: false })
}

/// The definition of a type under the build's rules: a struct marked as an event is an
/// event.
pub open spec fn spec_type_def(def: AdtShape, is_event: bool, local: Seq<char>) -> Result<TypeDefV, UnsupportedV> {
    match spec_convert_type_def(def, local, TypeRules::Mantle) {
        Err(e) => Err(e),
        Ok(RpcTypeDefV::Enum { name, variants }) => Ok(TypeDefV::Enum { name, variants }),
        Ok(RpcTypeDefV::Struct { name, fields }) => Ok(
            if is_event {
                TypeDefV::Event { name, fields: unindexed(fields) }
            } else {
                TypeDefV::Struct { name, fields: unindexed(fields) }
            },
        ),
    }
}

/// The indexed fields listed for an event: those of the last entry with its name (a
/// later entry replaces an earlier one).
pub open spec fn indexed_fields_of(indices: Seq<(Seq<char>, Seq<Seq<char>>)>, name: Seq<char>) -> Option<Seq<Seq<char>>>
    decreases indices.len(),
{
    if indices.len() == 0 {
        None
    } else if indices.last().0 == name {
        Some(indices.last().1)
    } else {
        indexed_fields_of(indices.drop_last(), name)
    }
}

/// An event's fields marked indexed as the indices list them.
pub open spec fn with_indices(def: TypeDefV, indices: Seq<(Seq<char>, Seq<Seq<char>>)>) -> TypeDefV {
    match def {
        TypeDefV::Event { name, fields } => match indexed_fields_of(indices, name) {
            Some(ix) => TypeDefV::Event {
                name,
                fields: fields.map_values(|f: FieldV| FieldV { indexed: ix.contains(f.name), ..f }),
            },
            None => def,
        },
        _ => def,
    }
}

/// The type definitions that convert (events with their indexed fields marked), and
/// the errors of those that do not, in order.
pub open spec fn spec_type_defs(
    defs: Seq<(AdtShape, bool)>,
    indices: Seq<(Seq<char>, Seq<Seq<char>>)>,
    local: Seq<char>,
) -> (Seq<UnsupportedV>, Seq<TypeDefV>)
    decreases defs.len(),
{
    if defs.len() == 0 {
        (seq![], seq![])
    } else {
        let (errs, done) = spec_type_defs(defs.drop_last(), indices, local);
        match spec_type_def(defs.last().0, defs.last().1, local) {
            Ok(d) => (errs, done.push(with_indices(d, indices))),
            Err(e) => (errs.push(e), done),
        }
    }
}

pub open spec fn word_default() -> Seq<char> {
    seq!['d', 'e', 'f', 'a', 'u', 'l', 't']
}

/// The functions in order: `new` is the constructor (the last one that converts wins),
/// a `default` function without inputs or output is noted rather than listed, the
/// others are functions; with every error, in order.
pub open spec fn spec_functions(fns: Seq<FnShape>, local: Seq<char>) -> (Seq<UnsupportedV>, Option<Seq<RpcTypeV>>, Seq<RpcFunctionV>, bool)
    decreases fns.len(),
{
    if fns.len() == 0 {
        (seq![], None, seq![], false)
    } else {
        let (errs, ctor, done, has_default) = spec_functions(fns.drop_last(), local);
        let f = fns.last();
        if f.name@ == word_new() {
            match spec_convert_ctor(f.inputs@, local, TypeRules::Mantle) {
                Ok(c) => (errs, Some(c), done, has_default),
                Err(es) => (errs + es, ctor, done, has_default),
            }
        } else {
            match spec_convert_function(f, local, TypeRules::Mantle) {
                Ok(g) => if f.name@ == word_default() && g.inputs.len() == 0 && g.output is None {
                    (errs, ctor, done, true)
                } else {
                    (errs, ctor, done.push(g), has_default)
                },
                Err(es) => (errs + es, ctor, done, has_default),
            }
        }
    }
}

pub open spec fn spec_interface_errors(
    defs: Seq<(AdtShape, bool)>,
    indices: Seq<(Seq<char>, Seq<Seq<char>>)>,
    fns: Seq<FnShape>,
    local: Seq<char>,
) -> Seq<UnsupportedV> {
    spec_type_defs(defs, indices, local).0 + spec_functions(fns, local).0
}

pub open spec fn index_views(v: Seq<(String, Vec<String>)>) -> Seq<(Seq<char>, Seq<Seq<char>>)> {
    v.map_values(|p: (String, Vec<String>)| (p.0@, string_views(p.1@)))
}

/// Whether every type the build converts is complete, and every function but the
/// constructor takes `self` by reference.
pub open spec fn build_inputs_ok(defs: Seq<(AdtShape, bool)>, fns: Seq<FnShape>) -> bool {
    &&& forall|i: int| 0 <= i < defs.len() ==> ((#[trigger] defs[i]).0 matches AdtShape::Struct { fields, .. }
        ==> forall|j: int| 0 <= j < fields@.len() ==> args_complete(#[trigger] fields@[j].ty, TypeRules::Mantle))
    &&& forall|i: int| 0 <= i < fns.len() ==> {
        &&& all_args_complete((#[trigger] fns[i]).inputs@, TypeRules::Mantle)
        &&& (fns[i].output matches Some(t) ==> args_complete(t, TypeRules::Mantle))
        &&& (fns[i].name@ != word_new() ==> fns[i].self_kind != SelfKind::Other)
    }
}

fn fields_unindexed(fs: Vec<crate::idl::RpcField>) -> (r: Vec<Field>)
    ensures
        build_field_views(r@) == unindexed(crate::idl::field_views(fs@)),
{
    let mut out: Vec<Field> = Vec::new();
    let mut fs = fs;
    let ghost all = crate::idl::field_views(fs@);
    assert(all.skip(0) =~= all);
    while fs.len() > 0
        invariant
            fs@.len() + out@.len() == all.len(),
            crate::idl::field_views(fs@) == all.skip(out@.len() as int),
            build_field_views(out@) == unindexed(all).take(out@.len() as int),
        decreases fs@.len(),
    {
        let ghost old_fs = fs@;
        let ghost n = out@.len() as int;
        let f = fs.remove(0);
        assert(fs@ =~= old_fs.skip(1));
        assert(crate::idl::field_views(fs@) =~= all.skip(n + 1)) by {
            assert forall|k: int| 0 <= k < fs@.len() implies #[trigger] crate::idl::field_views(fs@)[k]
                == all.skip(n + 1)[k] by {
                assert(crate::idl::field_views(old_fs)[k + 1] == all.skip(n)[k + 1]);
            }
        }
        assert(f@ == all[n]) by {
            assert(crate::idl::field_views(old_fs)[0] == all.skip(n)[0]);
        }
        let ghost before = out@;
        let g = Field { name: f.name, ty: f.ty, indexed: false };
        out.push(g);
        assert(build_field_views(out@) =~= build_field_views(before).push(g@));
        assert(build_field_views(out@) =~= unindexed(all).take(out@.len() as int));
    }
    assert(unindexed(all).take(out@.len() as int) =~= unindexed(all));
    out
}

/// The definition of a type under the build's rules: a struct marked as an event is an
/// event, none of whose fields is indexed yet.
pub fn convert_type_def(def: &AdtShape, is_event: bool, local_crate: &str) -> (r: Result<TypeDef, UnsupportedTypeError>)
    requires
        def matches AdtShape::Struct { fields, .. } ==> forall|j: int|
            0 <= j < fields@.len() ==> args_complete(#[trigger] fields@[j].ty, TypeRules::Mantle),
    ensures
        match r {
            Ok(d) => spec_type_def(*def, is_event, local_crate@) == Ok::<TypeDefV, UnsupportedV>(d@),
            Err(e) => spec_type_def(*def, is_event, local_crate@) == Err::<TypeDefV, UnsupportedV>(e@),
        },
{
    match RpcTypeDef::convert(def, local_crate, TypeRules::Mantle) {
        Err(e) => Err(e),
        Ok(RpcTypeDef::Enum { name, variants }) => Ok(TypeDef::Enum { name, variants }),
        Ok(RpcTypeDef::Struct { name, fields }) => {
            let fields = fields_unindexed(fields);
            if is_event {
                Ok(TypeDef::Event { name, fields })
            } else {
                Ok(TypeDef::Struct { name, fields })
            }
        },
    }
}

/// The indexed fields listed for the event named `name`, if any.
fn find_indices<'a>(indices: &'a Vec<(String, Vec<String>)>, name: &String) -> (r: Option<&'a Vec<String>>)
    ensures
        match r {
            Some(ix) => indexed_fields_of(index_views(indices@), name@) == Some(string_views(ix@)),
            None => indexed_fields_of(index_views(indices@), name@) is None,
        },
{
    let ghost all = index_views(indices@);
    let mut i: usize = indices.len();
    assert(all.take(i as int) =~= all);
    while i > 0
        invariant
            0 <= i <= indices@.len(),
            all == index_views(indices@),
            indexed_fields_of(all, name@) == indexed_fields_of(all.take(i as int), name@),
        decreases i,
    {
        let ghost pre = all.take(i as int);
        assert(pre.last() == (indices@[i - 1].0@, string_views(indices@[i - 1].1@)));
        if str_eq(indices[i - 1].0.as_str(), name.as_str()) {
            return Some(&indices[i - 1].1);
        }
        assert(pre.drop_last() =~= all.take(i - 1));
        i = i - 1;
    }
    None
}

fn contains_name(ix: &Vec<String>, name: &String) -> (r: bool)
    ensures
        r == string_views(ix@).contains(name@),
{
    let mut i: usize = 0;
    while i < ix.len()
        invariant
            0 <= i <= ix@.len(),
            forall|k: int| 0 <= k < i ==> ix@[k]@ != name@,
        decreases ix@.len() - i,
    {
        if str_eq(ix[i].as_str(), name.as_str()) {
            assert(string_views(ix@)[i as int] == name@);
            return true;
        }
        i = i + 1;
    }
    assert forall|k: int| 0 <= k < string_views(ix@).len() implies string_views(ix@)[k] != name@ by {
        assert(string_views(ix@)[k] == ix@[k]@);
    }
    false
}

/// Marks the fields of an event that the indices list for it as indexed.
fn mark_indexed(def: TypeDef, indices: &Vec<(String, Vec<String>)>) -> (r: TypeDef)
    ensures
        r@ == with_indices(def@, index_views(indices@)),
{
    match def {
        TypeDef::Event { name, fields } => match find_indices(indices, &name) {
            Some(ix) => {
                let ghost fv = build_field_views(fields@);
                let ghost sv = string_views(ix@);
                let mut out: Vec<Field> = Vec::new();
                let mut fields = fields;
                let ghost total = fields@.len();
                assert(fv.skip(0) =~= fv);
                while fields.len() > 0
                    invariant
                        fields@.len() + out@.len() == total,
                        fv.len() == total,
                        sv == string_views(ix@),
                        build_field_views(fields@) == fv.skip(out@.len() as int),
                        build_field_views(out@) == fv.map_values(
                            |f: FieldV| FieldV { indexed: sv.contains(f.name), ..f },
                        ).take(out@.len() as int),
                    decreases fields@.len(),
                {
                    let ghost old_fs = fields@;
                    let ghost n = out@.len() as int;
                    let f = fields.remove(0);
                    assert(fields@ =~= old_fs.skip(1));
                    assert(build_field_views(fields@) =~= fv.skip(n + 1)) by {
                        assert forall|k: int| 0 <= k < fields@.len() implies #[trigger] build_field_views(
                            fields@,
                        )[k] == fv.skip(n + 1)[k] by {
                            assert(build_field_views(old_fs)[k + 1] == fv.skip(n)[k + 1]);
                        }
                    }
                    assert(f@ == fv[n]) by {
                        assert(build_field_views(old_fs)[0] == fv.skip(n)[0]);
                    }
                    let indexed = contains_name(ix, &f.name);
                    let ghost before = out@;
                    let ghost fview = f@;
                    let g = Field { name: f.name, ty: f.ty, indexed };
                    assert(g@ == FieldV { indexed: sv.contains(fview.name), ..fview });
                    out.push(g);
                    assert(build_field_views(out@) =~= build_field_views(before).push(g@));
                    assert(build_field_views(out@) =~= fv.map_values(
                        |f: FieldV| FieldV { indexed: sv.contains(f.name), ..f },
                    ).take(out@.len() as int));
                }
                assert(fv.map_values(|f: FieldV| FieldV { indexed: sv.contains(f.name), ..f }).take(
                    out@.len() as int,
                ) =~= fv.map_values(|f: FieldV| FieldV { indexed: sv.contains(f.name), ..f }));
                TypeDef::Event { name, fields: out }
            },
            None => TypeDef::Event { name, fields },
        },
        other => other,
    }
}

proof fn lemma_ctor_found(fns: Seq<FnShape>, local: Seq<char>, i: int)
    requires
        0 <= i < fns.len(),
        fns[i].name@ == word_new(),
        spec_functions(fns, local).0.len() == 0,
    ensures
        spec_functions(fns, local).1 is Some,
    decreases fns.len(),
{
    if i < fns.len() - 1 {
        lemma_ctor_found(fns.drop_last(), local, i);
    }
}

fn is_word(name: &String, word: &str) -> (r: bool)
    ensures
        r == (name@ == word@),
{
    str_eq(name.as_str(), word)
}

/// The interface of service `name`, defined in crate `local_crate`: its imports (name
/// and version), the type definitions it names (each marked whether it is an event,
/// with `event_indices` listing each event's indexed fields), and its functions, of
/// which `new` is the constructor and a `default` function without inputs or output
/// is noted; or every error, those of the type definitions first. The imports and the
/// type definitions come as sets do: each once.
pub fn convert_interface(
    name: &str,
    imports: &Vec<(String, String)>,
    adt_defs: &Vec<(AdtShape, bool)>,
    event_indices: &Vec<(String, Vec<String>)>,
    fns: &Vec<FnShape>,
    local_crate: &str,
    version: &str,
) -> (r: Result<Interface, Vec<UnsupportedTypeError>>)
    requires
        import_pair_views(imports@).no_duplicates(),
        adt_defs@.no_duplicates(),
        build_inputs_ok(adt_defs@, fns@),
        spec_interface_errors(adt_defs@, index_views(event_indices@), fns@, local_crate@).len() > 0
            || exists|i: int| 0 <= i < fns@.len() && #[trigger] fns@[i].name@ == word_new(),
    ensures
        ({
            let ix = index_views(event_indices@);
            match r {
                Ok(intf) => {
                    &&& spec_interface_errors(adt_defs@, ix, fns@, local_crate@).len() == 0
                    &&& intf@ == InterfaceV {
                        name: name@,
                        namespace: local_crate@,
                        imports: import_pair_views(imports@),
                        type_defs: spec_type_defs(adt_defs@, ix, local_crate@).1,
                        constructor: spec_functions(fns@, local_crate@).1->Some_0,
                        functions: spec_functions(fns@, local_crate@).2,
                        has_default_function: spec_functions(fns@, local_crate@).3,
                        version: version@,
                    }
                },
                Err(es) => {
                    &&& error_views(es@) == spec_interface_errors(adt_defs@, ix, fns@, local_crate@)
                    &&& es@.len() > 0
                },
            }
        }),
{
    let ghost ix = index_views(event_indices@);
    let mut imps: Vec<RpcImport> = Vec::new();
    let mut k: usize = 0;
    while k < imports.len()
        invariant
            0 <= k <= imports@.len(),
            import_views(imps@) == import_pair_views(imports@).take(k as int),
        decreases imports@.len() - k,
    {
        let ghost before = imps@;
        let imp = RpcImport { name: imports[k].0.clone(), version: imports[k].1.clone() };
        imps.push(imp);
        assert(import_views(imps@) =~= import_views(before).push(imp@));
        assert(import_views(imps@) =~= import_pair_views(imports@).take(k + 1));
        k = k + 1;
    }
    assert(import_pair_views(imports@).take(k as int) =~= import_pair_views(imports@));

    let mut errs: Vec<UnsupportedTypeError> = Vec::new();
    let mut type_defs: Vec<TypeDef> = Vec::new();
    let mut i: usize = 0;
    assert(adt_defs@.take(0) =~= Seq::<(AdtShape, bool)>::empty());
    assert(error_views(errs@) =~= Seq::<UnsupportedV>::empty());
    assert(build_type_def_views(type_defs@) =~= Seq::<TypeDefV>::empty());
    while i < adt_defs.len()
        invariant
            0 <= i <= adt_defs@.len(),
            build_inputs_ok(adt_defs@, fns@),
            ix == index_views(event_indices@),
            (error_views(errs@), build_type_def_views(type_defs@)) == spec_type_defs(
                adt_defs@.take(i as int),
                ix,
                local_crate@,
            ),
        decreases adt_defs@.len() - i,
    {
        proof {
            assert(adt_defs@.take(i + 1).drop_last() =~= adt_defs@.take(i as int));
            assert(adt_defs@[i as int].0 matches AdtShape::Struct { fields, .. } ==> forall|j: int|
                0 <= j < fields@.len() ==> args_complete(#[trigger] fields@[j].ty, TypeRules::Mantle));
        }
        match convert_type_def(&adt_defs[i].0, adt_defs[i].1, local_crate) {
            Ok(d) => {
                let d = mark_indexed(d, event_indices);
                let ghost before = type_defs@;
                type_defs.push(d);
                assert(build_type_def_views(type_defs@) =~= build_type_def_views(before).push(d@));
            },
            Err(e) => {
                let ghost before = errs@;
                errs.push(e);
                assert(error_views(errs@) =~= error_views(before).push(e@));
            },
        }
        i = i + 1;
    }
    assert(adt_defs@.take(i as int) =~= adt_defs@);
    let ghost def_errs = error_views(errs@);

    let mut ctor: Option<StateConstructor> = None;
    let mut functions: Vec<RpcFunction> = Vec::new();
    let mut has_default_function = false;
    let mut j: usize = 0;
    assert(fns@.take(0) =~= Seq::<FnShape>::empty());
    assert(function_views(functions@) =~= Seq::<RpcFunctionV>::empty());
    assert(def_errs + Seq::<UnsupportedV>::empty() =~= def_errs);
    while j < fns.len()
        invariant
            0 <= j <= fns@.len(),
            build_inputs_ok(adt_defs@, fns@),
            error_views(errs@) == def_errs + spec_functions(fns@.take(j as int), local_crate@).0,
            match ctor {
                Some(c) => spec_functions(fns@.take(j as int), local_crate@).1 == Some(
                    rpc_views(c.inputs@),
                ),
                None => spec_functions(fns@.take(j as int), local_crate@).1 is None,
            },
            function_views(functions@) == spec_functions(fns@.take(j as int), local_crate@).2,
            has_default_function == spec_functions(fns@.take(j as int), local_crate@).3,
        decreases fns@.len() - j,
    {
        proof {
            assert(fns@.take(j + 1).drop_last() =~= fns@.take(j as int));
            assert(fns@.take(j + 1).last() == fns@[j as int]);
            reveal_strlit("default");
            assert("default"@ =~= word_default());
        }
        let ghost prev = spec_functions(fns@.take(j as int), local_crate@);
        let ghost before = errs@;
        if crate::idl::is_new(&fns[j].name) {
            match StateConstructor::convert(&fns[j].inputs, local_crate, TypeRules::Mantle) {
                Ok(c) => {
                    ctor = Some(c);
                },
                Err(es) => {
                    let mut es = es;
                    let ghost esv = error_views(es@);
                    errs.append(&mut es);
                    assert(error_views(errs@) =~= error_views(before) + esv);
                    assert(def_errs + (prev.0 + esv) =~= def_errs + prev.0 + esv);
                },
            }
        } else {
            match RpcFunction::convert(&fns[j], local_crate, TypeRules::Mantle) {
                Ok(g) => {
                    if is_word(&fns[j].name, "default") && g.inputs.len() == 0 && g.output.is_none() {
                        proof {
                            crate::idl::lemma_rpc_views_len(g.inputs@);
                        }
                        has_default_function = true;
                    } else {
                        proof {
                            crate::idl::lemma_rpc_views_len(g.inputs@);
                        }
                        let ghost fb = functions@;
                        functions.push(g);
                        assert(function_views(functions@) =~= function_views(fb).push(g@));
                    }
                },
                Err(es) => {
                    let mut es = es;
                    let ghost esv = error_views(es@);
                    errs.append(&mut es);
                    assert(error_views(errs@) =~= error_views(before) + esv);
                    assert(def_errs + (prev.0 + esv) =~= def_errs + prev.0 + esv);
                },
            }
        }
        j = j + 1;
    }
    assert(fns@.take(j as int) =~= fns@);
    if errs.len() > 0 {
        return Err(errs);
    }
    proof {
        if spec_interface_errors(adt_defs@, ix, fns@, local_crate@).len() == 0 {
            let w = choose|i: int| 0 <= i < fns@.len() && #[trigger] fns@[i].name@ == word_new();
            lemma_ctor_found(fns@, local_crate@, w);
        }
    }
    let constructor = ctor.unwrap();
    Ok(
        Interface {
            name: string_from_chars(str_chars(name).as_slice()),
            namespace: string_from_chars(str_chars(local_crate).as_slice()),
            imports: imps,
            type_defs,
            constructor,
            functions,
            has_default_function,
            mantle_build_version: string_from_chars(str_chars(version).as_slice()),
        },
    )
}

} // verus!
