//! The plan of what is derived from a classified schema: the key and value
//! sums, the record and its companion, their accessors, formatting and
//! default construction.
use vstd::prelude::*;
use crate::schema::{
    classified_all, config_accepted, config_from, config_of, first_decl_error, is_catch_all,
    lemma_classified_agree, lemma_rule_error_not_well_formed, parse_struct_fields, rule_error,
    well_formed_fields, ConfigArg, FieldInfo, SchemaError, StructDecl, StructFields,
    StructibleConfig,
};
use crate::text::{format_method_doc, method_doc, owned, push_str, strip_raw, to_pascal_case, pascal_of, unraw};

verus! {

/// What a derived method does.
#[derive(Clone, Copy, Debug, PartialEq, Eq, Structural)]
pub enum MethodKind {
    /// Builds the record from its required fields.
    Constructor,
    /// Reads a required field.
    Get,
    /// Reads an optional field, present or absent.
    GetOptional,
    /// Mutable access to a required field.
    GetMut,
    /// Mutable access to an optional field, present or absent.
    GetMutOptional,
    /// Replaces a required field's value.
    SetRequired,
    /// Makes an optional field present with a value, or absent.
    SetOptional,
    /// Removes an optional field, handing back its value.
    Remove,
    /// Stores an extension entry.
    AddUnknown,
    /// Reads an extension entry by key.
    GetUnknown,
    /// Mutable access to an extension entry by key.
    GetUnknownMut,
    /// Removes an extension entry by key.
    RemoveUnknown,
    /// Lists the extension entries.
    IterUnknown,
    /// Consumes the record into its companion.
    IntoFields,
    /// The number of present entries.
    Len,
    /// Whether no entry is present.
    IsEmpty,
    /// Takes a field out of the companion.
    Take,
    /// Takes an extension entry out of the companion.
    TakeUnknown,
    /// Takes every extension entry out of the companion at once.
    DrainUnknown,
}

/// One derived method.
#[derive(Debug)]
pub struct MethodDef {
    pub name: String,
    pub kind: MethodKind,
    /// The field it is about, by position among the declared fields.
    pub field: Option<usize>,
    /// Its visibility, as written.
    pub vis: String,
}

/// A method as the plan states it: name, kind, field and visibility.
pub type MethodSpec = (Seq<char>, MethodKind, Option<usize>, Seq<char>);

impl MethodDef {
    /// The method's name, kind, field and visibility.
    pub open spec fn spec_of(&self) -> MethodSpec {
        (self.name@, self.kind, self.field, self.vis@)
    }
}

/// The specs of a list of methods.
pub open spec fn specs_of(ms: Seq<MethodDef>) -> Seq<MethodSpec> {
    ms.map_values(|m: MethodDef| m.spec_of())
}

/// Which family of per-field methods is planned.
#[derive(Clone, Copy, Debug, PartialEq, Eq, Structural)]
pub enum Role {
    Getter,
    GetterMut,
    Setter,
    Remover,
    Take,
    AddUnknown,
    GetUnknown,
    GetUnknownMut,
    RemoveUnknown,
    IterUnknown,
    TakeUnknown,
    DrainUnknown,
}

/// `prefix`, then the name without any raw-identifier prefix, then `suffix`.
pub open spec fn composed(prefix: Seq<char>, name: Seq<char>, suffix: Seq<char>) -> Seq<char> {
    prefix + unraw(name) + suffix
}

/// The name given in the field's configuration, else the default name.
pub open spec fn renamed(given: Option<String>, default: Seq<char>) -> Seq<char> {
    match given {
        Some(n) => n@,
        None => default,
    }
}

/// The method of family `role` that field `f` at position `i` gets, if any.
pub open spec fn method_spec(role: Role, f: FieldInfo, i: usize) -> Option<MethodSpec> {
    let n = f.name@;
    let known = !is_catch_all(f);
    let opt = f.is_optional;
    match role {
        Role::Getter => if known {
            Some((renamed(f.config.get, n), if opt { MethodKind::GetOptional } else { MethodKind::Get }, Some(i), f.vis@))
        } else {
            None
        },
        Role::GetterMut => if known {
            Some((renamed(f.config.get_mut, composed(seq![], n, "_mut"@)), if opt { MethodKind::GetMutOptional } else { MethodKind::GetMut }, Some(i), f.vis@))
        } else {
            None
        },
        Role::Setter => if known {
            Some((renamed(f.config.set, composed("set_"@, n, seq![])), if opt { MethodKind::SetOptional } else { MethodKind::SetRequired }, Some(i), f.vis@))
        } else {
            None
        },
        Role::Remover => if known && opt {
            Some((renamed(f.config.remove, composed("remove_"@, n, seq![])), MethodKind::Remove, Some(i), f.vis@))
        } else {
            None
        },
        Role::Take => if known {
            Some((composed("take_"@, n, seq![]), MethodKind::Take, Some(i), f.vis@))
        } else {
            None
        },
        Role::AddUnknown => if !known {
            Some((composed("add_"@, n, seq![]), MethodKind::AddUnknown, Some(i), f.vis@))
        } else {
            None
        },
        Role::GetUnknown => if !known {
            Some((n, MethodKind::GetUnknown, Some(i), f.vis@))
        } else {
            None
        },
        Role::GetUnknownMut => if !known {
            Some((composed(seq![], n, "_mut"@), MethodKind::GetUnknownMut, Some(i), f.vis@))
        } else {
            None
        },
        Role::RemoveUnknown => if !known {
            Some((composed("remove_"@, n, seq![]), MethodKind::RemoveUnknown, Some(i), f.vis@))
        } else {
            None
        },
        Role::IterUnknown => if !known {
            Some((composed(seq![], n, "_iter"@), MethodKind::IterUnknown, Some(i), f.vis@))
        } else {
            None
        },
        Role::TakeUnknown => if !known {
            Some((composed("take_"@, n, seq![]), MethodKind::TakeUnknown, Some(i), f.vis@))
        } else {
            None
        },
        Role::DrainUnknown => if !known {
            Some((composed("drain_"@, n, seq![]), MethodKind::DrainUnknown, Some(i), f.vis@))
        } else {
            None
        },
    }
}

/// The methods of family `role` that the fields get, in declaration order.
pub open spec fn planned(role: Role, fs: Seq<FieldInfo>) -> Seq<MethodSpec>
    decreases fs.len(),
{
    if fs.len() == 0 {
        Seq::empty()
    } else {
        let i = (fs.len() - 1) as usize;
        planned(role, fs.drop_last()) + match method_spec(role, fs.last(), i) {
            Some(m) => seq![m],
            None => Seq::empty(),
        }
    }
}

/// `prefix`, then `name` without any raw-identifier prefix, then `suffix`.
pub fn compose(prefix: &str, name: &str, suffix: &str) -> (r: String)
    ensures
        r@ == composed(prefix@, name@, suffix@),
{
    let mut s = owned(prefix);
    let bare = strip_raw(name);
    push_str(&mut s, bare.as_str());
    push_str(&mut s, suffix);
    s
}

/// The name given in the configuration, else the default one.
fn pick_name(given: &Option<String>, default: String) -> (r: String)
    ensures
        r@ == renamed(*given, default@),
{
    match given {
        Some(n) => n.clone(),
        None => default,
    }
}

/// The method of family `role` that a field gets, if any.
fn method_for(role: Role, f: &FieldInfo, i: usize) -> (r: Option<MethodDef>)
    ensures
        match r {
            Some(m) => method_spec(role, *f, i) == Some(m.spec_of()),
            None => method_spec(role, *f, i) is None,
        },
{
    proof {
        reveal_strlit("_mut");
        reveal_strlit("set_");
        reveal_strlit("remove_");
        reveal_strlit("take_");
        reveal_strlit("add_");
        reveal_strlit("_iter");
        reveal_strlit("drain_");
        reveal_strlit("");
        assert(""@ =~= Seq::<char>::empty());
    }
    let n = f.name.as_str();
    let known = !f.is_unknown_field();
    let opt = f.is_optional;
    let (name, kind) = match role {
        Role::Getter => {
            if !known {
                return None;
            }
            (pick_name(&f.config.get, f.name.clone()), if opt { MethodKind::GetOptional } else { MethodKind::Get })
        },
        Role::GetterMut => {
            if !known {
                return None;
            }
            (pick_name(&f.config.get_mut, compose("", n, "_mut")), if opt { MethodKind::GetMutOptional } else { MethodKind::GetMut })
        },
        Role::Setter => {
            if !known {
                return None;
            }
            (pick_name(&f.config.set, compose("set_", n, "")), if opt { MethodKind::SetOptional } else { MethodKind::SetRequired })
        },
        Role::Remover => {
            if !known || !opt {
                return None;
            }
            (pick_name(&f.config.remove, compose("remove_", n, "")), MethodKind::Remove)
        },
        Role::Take => {
            if !known {
                return None;
            }
            (compose("take_", n, ""), MethodKind::Take)
        },
        Role::AddUnknown => {
            if known {
                return None;
            }
            (compose("add_", n, ""), MethodKind::AddUnknown)
        },
        Role::GetUnknown => {
            if known {
                return None;
            }
            (f.name.clone(), MethodKind::GetUnknown)
        },
        Role::GetUnknownMut => {
            if known {
                return None;
            }
            (compose("", n, "_mut"), MethodKind::GetUnknownMut)
        },
        Role::RemoveUnknown => {
            if known {
                return None;
            }
            (compose("remove_", n, ""), MethodKind::RemoveUnknown)
        },
        Role::IterUnknown => {
            if known {
                return None;
            }
            (compose("", n, "_iter"), MethodKind::IterUnknown)
        },
        Role::TakeUnknown => {
            if known {
                return None;
            }
            (compose("take_", n, ""), MethodKind::TakeUnknown)
        },
        Role::DrainUnknown => {
            if known {
                return None;
            }
            (compose("drain_", n, ""), MethodKind::DrainUnknown)
        },
    };
    Some(MethodDef { name, kind, field: Some(i), vis: f.vis.clone() })
}

/// The methods of family `role` that the fields get, in declaration order.
pub fn plan_methods(role: Role, fields: &Vec<FieldInfo>) -> (r: Vec<MethodDef>)
    ensures
        specs_of(r@) == planned(role, fields@),
{
    let mut out: Vec<MethodDef> = Vec::new();
    let mut i: usize = 0;
    while i < fields.len()
        invariant
            0 <= i <= fields.len(),
            specs_of(out@) == planned(role, fields@.take(i as int)),
        decreases fields.len() - i,
    {
        let ghost before = out@;
        assert(fields@.take(i + 1).drop_last() =~= fields@.take(i as int));
        match method_for(role, &fields[i], i) {
            Some(m) => {
                out.push(m);
                assert(specs_of(out@) =~= specs_of(before) + seq![out@.last().spec_of()]);
            },
            None => {},
        }
        assert(specs_of(out@) =~= planned(role, fields@.take(i + 1)));
        i += 1;
    }
    assert(fields@.take(fields.len() as int) =~= fields@);
    out
}

/// Which fields a list of positions picks.
#[derive(Clone, Copy, Debug, PartialEq, Eq, Structural)]
pub enum Selection {
    /// Every field but the catch-all.
    Known,
    /// Every field that is neither optional nor the catch-all.
    Required,
    /// The catch-all.
    CatchAll,
}

/// Whether `f` is picked by `which`.
pub open spec fn picks(which: Selection, f: FieldInfo) -> bool {
    match which {
        Selection::Known => !is_catch_all(f),
        Selection::Required => !is_catch_all(f) && !f.is_optional,
        Selection::CatchAll => is_catch_all(f),
    }
}

/// The positions of the fields that `which` picks, in order.
pub open spec fn positions(which: Selection, fs: Seq<FieldInfo>) -> Seq<usize>
    decreases fs.len(),
{
    if fs.len() == 0 {
        Seq::empty()
    } else {
        positions(which, fs.drop_last()) + if picks(which, fs.last()) {
            seq![(fs.len() - 1) as usize]
        } else {
            Seq::empty()
        }
    }
}

/// The positions of the fields that `which` picks, in order.
pub fn select_fields(which: Selection, fields: &Vec<FieldInfo>) -> (r: Vec<usize>)
    ensures
        r@ == positions(which, fields@),
{
    let mut out: Vec<usize> = Vec::new();
    let mut i: usize = 0;
    while i < fields.len()
        invariant
            0 <= i <= fields.len(),
            out@ == positions(which, fields@.take(i as int)),
        decreases fields.len() - i,
    {
        assert(fields@.take(i + 1).drop_last() =~= fields@.take(i as int));
        let f = &fields[i];
        let picked = match which {
            Selection::Known => !f.is_unknown_field(),
            Selection::Required => !f.is_unknown_field() && !f.is_optional,
            Selection::CatchAll => f.is_unknown_field(),
        };
        if picked {
            out.push(i);
        }
        assert(out@ =~= positions(which, fields@.take(i + 1)));
        i += 1;
    }
    assert(fields@.take(fields.len() as int) =~= fields@);
    out
}

/// `prefix` followed by `name`.
fn prefixed(prefix: &str, name: &str) -> (r: String)
    ensures
        r@ == prefix@ + name@,
{
    let mut s = owned(prefix);
    push_str(&mut s, name);
    s
}

/// The name of a record's key sum.
pub fn field_enum_name(struct_name: &str) -> (r: String)
    ensures
        r@ == "__StructibleField_"@ + struct_name@,
{
    prefixed("__StructibleField_", struct_name)
}

/// The name of a record's value sum.
pub fn value_enum_name(struct_name: &str) -> (r: String)
    ensures
        r@ == "__StructibleValue_"@ + struct_name@,
{
    prefixed("__StructibleValue_", struct_name)
}

/// The name of a record's companion.
pub fn fields_struct_name(struct_name: &str) -> (r: String)
    ensures
        r@ == struct_name@ + "Fields"@,
{
    let mut s = owned(struct_name);
    push_str(&mut s, "Fields");
    s
}

/// A derived sum: one variant per field that is not the catch-all, in
/// declaration order, and an extension variant where a catch-all exists.
#[derive(Debug)]
pub struct SumDef {
    pub name: String,
    /// The variant names.
    pub variants: Vec<String>,
    /// The field each variant stands for, by position.
    pub fields: Vec<usize>,
    /// The catch-all field, whose key (in the key sum) or value (in the
    /// value sum) the extension variant holds.
    pub catch_all: Option<usize>,
}

/// `d` has one variant per field other than the catch-all, named after it,
/// and the catch-all as its extension.
pub open spec fn sum_of(d: SumDef, fs: Seq<FieldInfo>) -> bool {
    &&& d.fields@ == positions(Selection::Known, fs)
    &&& d.variants@.len() == d.fields@.len()
    &&& forall|k: int|
        0 <= k < d.variants@.len() ==> (#[trigger] d.variants@[k])@ == pascal_of(
            fs[d.fields@[k] as int].name@,
        )
    &&& d.catch_all == if positions(Selection::CatchAll, fs).len() > 0 {
        Some(positions(Selection::CatchAll, fs)[0])
    } else {
        None::<usize>
    }
}

/// The variants of a derived sum.
fn derive_sum(name: String, fields: &Vec<FieldInfo>) -> (r: SumDef)
    ensures
        r.name == name,
        sum_of(r, fields@),
{
    let known = select_fields(Selection::Known, fields);
    let catch_alls = select_fields(Selection::CatchAll, fields);
    let catch_all = if catch_alls.len() > 0 {
        Some(catch_alls[0])
    } else {
        None
    };
    proof {
        lemma_positions_in_range(Selection::Known, fields@);
    }
    let mut variants: Vec<String> = Vec::new();
    let mut k: usize = 0;
    while k < known.len()
        invariant
            known@ == positions(Selection::Known, fields@),
            forall|j: int| 0 <= j < known@.len() ==> #[trigger] known@[j] < fields@.len(),
            0 <= k <= known.len(),
            variants.len() == k,
            forall|j: int|
                0 <= j < k ==> (#[trigger] variants@[j])@ == pascal_of(fields@[known@[j] as int].name@),
        decreases known.len() - k,
    {
        variants.push(to_pascal_case(fields[known[k]].name.as_str()));
        k += 1;
    }
    SumDef { name, variants, fields: known, catch_all }
}

/// Every position listed is a position of the fields.
pub proof fn lemma_positions_in_range(which: Selection, fs: Seq<FieldInfo>)
    ensures
        forall|j: int|
            0 <= j < positions(which, fs).len() ==> #[trigger] positions(which, fs)[j] < fs.len(),
    decreases fs.len(),
{
    if fs.len() > 0 {
        let front = fs.drop_last();
        lemma_positions_in_range(which, front);
        assert forall|j: int| 0 <= j < positions(which, fs).len() implies #[trigger] positions(
            which,
            fs,
        )[j] < fs.len() by {
            if j < positions(which, front).len() {
                assert(positions(which, fs)[j] == positions(which, front)[j]);
            }
        }
    }
}

/// The key sum: the container's keys name a field by one of these variants.
pub fn generate_field_enum(struct_name: &str, fields: &Vec<FieldInfo>) -> (r: SumDef)
    ensures
        r.name@ == "__StructibleField_"@ + struct_name@,
        sum_of(r, fields@),
{
    derive_sum(field_enum_name(struct_name), fields)
}

/// The value sum: each variant wraps the value type of its field.
pub fn generate_value_enum(struct_name: &str, fields: &Vec<FieldInfo>) -> (r: SumDef)
    ensures
        r.name@ == "__StructibleValue_"@ + struct_name@,
        sum_of(r, fields@),
{
    derive_sum(value_enum_name(struct_name), fields)
}

/// A derived struct, the record or its companion, and which of `Clone` and
/// `PartialEq` it derives.
#[derive(Debug)]
pub struct StructDef {
    pub name: String,
    pub derive_clone: bool,
    pub derive_partial_eq: bool,
}

/// The record type itself.
pub fn generate_struct(struct_name: &str, config: &StructibleConfig) -> (r: StructDef)
    ensures
        r.name@ == struct_name@,
        r.derive_clone == !config.no_clone,
        r.derive_partial_eq == !config.no_partial_eq,
{
    StructDef {
        name: owned(struct_name),
        derive_clone: !config.no_clone,
        derive_partial_eq: !config.no_partial_eq,
    }
}

/// The companion that a consumed record hands over.
pub fn generate_fields_struct(struct_name: &str, config: &StructibleConfig) -> (r: StructDef)
    ensures
        r.name@ == struct_name@ + "Fields"@,
        r.derive_clone == !config.no_clone,
        r.derive_partial_eq == !config.no_partial_eq,
{
    StructDef {
        name: fields_struct_name(struct_name),
        derive_clone: !config.no_clone,
        derive_partial_eq: !config.no_partial_eq,
    }
}

/// How a record or its companion formats: its type name, then each present
/// field under its declared name in declaration order, then each present
/// extension entry under its own key.
#[derive(Debug)]
pub struct DebugDef {
    pub label: String,
    /// The fields, by position, that may be listed.
    pub fields: Vec<usize>,
    /// Whether extension entries are listed after them.
    pub with_unknown: bool,
}

/// Formatting of the record.
pub fn generate_debug_impl(struct_name: &str, fields: &Vec<FieldInfo>) -> (r: DebugDef)
    ensures
        r.label@ == struct_name@,
        r.fields@ == positions(Selection::Known, fields@),
        r.with_unknown == (positions(Selection::CatchAll, fields@).len() > 0),
{
    DebugDef {
        label: owned(struct_name),
        fields: select_fields(Selection::Known, fields),
        with_unknown: select_fields(Selection::CatchAll, fields).len() > 0,
    }
}

/// Formatting of the companion.
pub fn generate_fields_debug_impl(struct_name: &str, fields: &Vec<FieldInfo>) -> (r: DebugDef)
    ensures
        r.label@ == struct_name@ + "Fields"@,
        r.fields@ == positions(Selection::Known, fields@),
        r.with_unknown == (positions(Selection::CatchAll, fields@).len() > 0),
{
    DebugDef {
        label: fields_struct_name(struct_name),
        fields: select_fields(Selection::Known, fields),
        with_unknown: select_fields(Selection::CatchAll, fields).len() > 0,
    }
}

/// Whether `Default` is derived: exactly where every field but the catch-all
/// is optional. It makes a record with no field present.
pub fn generate_default_impl(fields: &Vec<FieldInfo>) -> (r: bool)
    ensures
        r == (positions(Selection::Required, fields@).len() == 0),
        r == (forall|i: int|
            0 <= i < fields@.len() && !is_catch_all(#[trigger] fields@[i]) ==> fields@[i].is_optional),
{
    let required = select_fields(Selection::Required, fields);
    proof {
        lemma_required_positions(fields@);
    }
    required.len() == 0
}

/// There is no required position exactly where every field but the
/// catch-all is optional.
pub proof fn lemma_required_positions(fs: Seq<FieldInfo>)
    ensures
        (positions(Selection::Required, fs).len() == 0) == (forall|i: int|
            0 <= i < fs.len() && !is_catch_all(#[trigger] fs[i]) ==> fs[i].is_optional),
    decreases fs.len(),
{
    if fs.len() > 0 {
        let front = fs.drop_last();
        lemma_required_positions(front);
        if positions(Selection::Required, fs).len() == 0 {
            assert forall|i: int| 0 <= i < fs.len() && !is_catch_all(#[trigger] fs[i]) implies fs[i].is_optional by {
                if i < fs.len() - 1 {
                    assert(front[i] == fs[i]);
                }
            }
        } else {
            if positions(Selection::Required, front).len() > 0 {
                let i = choose|i: int| 0 <= i < front.len() && !is_catch_all(#[trigger] front[i]) && !front[i].is_optional;
                assert(fs[i] == front[i]);
            } else {
                assert(!is_catch_all(fs[fs.len() - 1]) && !fs[fs.len() - 1].is_optional);
            }
        }
    }
}

/// The constructor: its name, and the fields it takes, by position.
#[derive(Debug)]
pub struct ConstructorDef {
    pub name: String,
    /// The required fields, in declaration order.
    pub params: Vec<usize>,
}

/// The constructor takes every required field, in declaration order, and
/// nothing else: no optional field and not the catch-all.
pub fn generate_constructor(fields: &Vec<FieldInfo>, config: &StructibleConfig) -> (r: ConstructorDef)
    ensures
        r.name@ == renamed(config.constructor, "new"@),
        r.params@ == positions(Selection::Required, fields@),
{
    ConstructorDef {
        name: pick_name(&config.constructor, owned("new")),
        params: select_fields(Selection::Required, fields),
    }
}

/// Getters of every field but the catch-all.
pub fn generate_getters(fields: &Vec<FieldInfo>) -> (r: Vec<MethodDef>)
    ensures
        specs_of(r@) == planned(Role::Getter, fields@),
{
    plan_methods(Role::Getter, fields)
}

/// Mutable getters of every field but the catch-all.
pub fn generate_getters_mut(fields: &Vec<FieldInfo>) -> (r: Vec<MethodDef>)
    ensures
        specs_of(r@) == planned(Role::GetterMut, fields@),
{
    plan_methods(Role::GetterMut, fields)
}

/// Setters of every field but the catch-all.
pub fn generate_setters(fields: &Vec<FieldInfo>) -> (r: Vec<MethodDef>)
    ensures
        specs_of(r@) == planned(Role::Setter, fields@),
{
    plan_methods(Role::Setter, fields)
}

/// Removers of the optional fields; required fields and the catch-all get none.
pub fn generate_removers(fields: &Vec<FieldInfo>) -> (r: Vec<MethodDef>)
    ensures
        specs_of(r@) == planned(Role::Remover, fields@),
{
    plan_methods(Role::Remover, fields)
}

/// Appends `more` to `ms`.
fn extend_methods(ms: &mut Vec<MethodDef>, more: Vec<MethodDef>)
    ensures
        specs_of(final(ms)@) == specs_of(old(ms)@) + specs_of(more@),
{
    let ghost given = more@;
    let mut more = more;
    ms.append(&mut more);
    assert(specs_of(ms@) =~= specs_of(old(ms)@) + specs_of(given));
}

/// The catch-all's extension methods on the record: add, get, get mutably,
/// remove and list.
pub fn generate_unknown_field_methods(fields: &Vec<FieldInfo>) -> (r: Vec<MethodDef>)
    ensures
        specs_of(r@) == planned(Role::AddUnknown, fields@) + planned(Role::GetUnknown, fields@)
            + planned(Role::GetUnknownMut, fields@) + planned(Role::RemoveUnknown, fields@)
            + planned(Role::IterUnknown, fields@),
{
    let mut ms = plan_methods(Role::AddUnknown, fields);
    extend_methods(&mut ms, plan_methods(Role::GetUnknown, fields));
    extend_methods(&mut ms, plan_methods(Role::GetUnknownMut, fields));
    extend_methods(&mut ms, plan_methods(Role::RemoveUnknown, fields));
    extend_methods(&mut ms, plan_methods(Role::IterUnknown, fields));
    ms
}

/// The catch-all's extension methods on the companion: take one, list, and
/// take all.
pub fn generate_fields_unknown_methods(fields: &Vec<FieldInfo>) -> (r: Vec<MethodDef>)
    ensures
        specs_of(r@) == planned(Role::TakeUnknown, fields@) + planned(Role::IterUnknown, fields@)
            + planned(Role::DrainUnknown, fields@),
{
    let mut ms = plan_methods(Role::TakeUnknown, fields);
    extend_methods(&mut ms, plan_methods(Role::IterUnknown, fields));
    extend_methods(&mut ms, plan_methods(Role::DrainUnknown, fields));
    ms
}

/// The companion's methods: a take for every field but the catch-all,
/// required ones included, then the catch-all's extension methods.
pub fn generate_fields_impl(fields: &Vec<FieldInfo>) -> (r: Vec<MethodDef>)
    ensures
        specs_of(r@) == planned(Role::Take, fields@) + planned(Role::TakeUnknown, fields@)
            + planned(Role::IterUnknown, fields@) + planned(Role::DrainUnknown, fields@),
{
    let mut ms = plan_methods(Role::Take, fields);
    extend_methods(&mut ms, generate_fields_unknown_methods(fields));
    ms
}

/// A method that is not about one field.
fn whole_record_method(name: &str, kind: MethodKind) -> (r: MethodDef)
    ensures
        r.spec_of() == (name@, kind, None::<usize>, "pub"@),
{
    MethodDef { name: owned(name), kind, field: None, vis: owned("pub") }
}

/// The method that consumes the record into its companion.
pub fn generate_into_fields() -> (r: MethodDef)
    ensures
        r.spec_of() == ("into_fields"@, MethodKind::IntoFields, None::<usize>, "pub"@),
{
    whole_record_method("into_fields", MethodKind::IntoFields)
}

/// The methods of the record beyond its constructor.
pub open spec fn record_methods(fs: Seq<FieldInfo>, with_len: bool) -> Seq<MethodSpec> {
    planned(Role::Getter, fs) + planned(Role::GetterMut, fs) + planned(Role::Setter, fs)
        + planned(Role::Remover, fs) + seq![("into_fields"@, MethodKind::IntoFields, None::<usize>, "pub"@)]
        + planned(Role::AddUnknown, fs) + planned(Role::GetUnknown, fs)
        + planned(Role::GetUnknownMut, fs) + planned(Role::RemoveUnknown, fs)
        + planned(Role::IterUnknown, fs) + if with_len {
        seq![("len"@, MethodKind::Len, None::<usize>, "pub"@), ("is_empty"@, MethodKind::IsEmpty, None::<usize>, "pub"@)]
    } else {
        Seq::empty()
    }
}

/// The record's accessors: getters, mutable getters, setters, removers, the
/// consuming method, the catch-all's methods, and `len` and `is_empty` where
/// configured.
pub fn generate_impl(fields: &Vec<FieldInfo>, config: &StructibleConfig) -> (r: Vec<MethodDef>)
    ensures
        specs_of(r@) == record_methods(fields@, config.with_len),
{
    let mut ms = generate_getters(fields);
    extend_methods(&mut ms, generate_getters_mut(fields));
    extend_methods(&mut ms, generate_setters(fields));
    extend_methods(&mut ms, generate_removers(fields));
    let mut one: Vec<MethodDef> = Vec::new();
    one.push(generate_into_fields());
    extend_methods(&mut ms, one);
    extend_methods(&mut ms, generate_unknown_field_methods(fields));
    let mut len_methods: Vec<MethodDef> = Vec::new();
    if config.with_len {
        len_methods.push(whole_record_method("len", MethodKind::Len));
        len_methods.push(whole_record_method("is_empty", MethodKind::IsEmpty));
    }
    extend_methods(&mut ms, len_methods);
    proof {
        assert(specs_of(ms@) =~= record_methods(fields@, config.with_len));
    }
    ms
}

/// Everything derived for one declared record.
#[derive(Debug)]
pub struct Expansion {
    /// The record's name.
    pub name: String,
    pub config: StructibleConfig,
    /// The classified fields, in declaration order.
    pub fields: Vec<FieldInfo>,
    pub field_enum: SumDef,
    pub value_enum: SumDef,
    pub fields_struct: StructDef,
    pub fields_methods: Vec<MethodDef>,
    pub fields_debug: DebugDef,
    pub record: StructDef,
    pub debug: DebugDef,
    pub constructor: ConstructorDef,
    pub methods: Vec<MethodDef>,
    /// Whether `Default` is derived.
    pub default_impl: bool,
}

/// `x` is what is derived for its own name, configuration and fields.
pub open spec fn expansion_of(x: Expansion) -> bool {
    let fs = x.fields@;
    &&& well_formed_fields(fs)
    &&& x.field_enum.name@ == "__StructibleField_"@ + x.name@
    &&& sum_of(x.field_enum, fs)
    &&& x.value_enum.name@ == "__StructibleValue_"@ + x.name@
    &&& sum_of(x.value_enum, fs)
    &&& x.fields_struct.name@ == x.name@ + "Fields"@
    &&& x.fields_struct.derive_clone == !x.config.no_clone
    &&& x.fields_struct.derive_partial_eq == !x.config.no_partial_eq
    &&& specs_of(x.fields_methods@) == planned(Role::Take, fs) + planned(Role::TakeUnknown, fs)
        + planned(Role::IterUnknown, fs) + planned(Role::DrainUnknown, fs)
    &&& x.fields_debug.label@ == x.name@ + "Fields"@
    &&& x.fields_debug.fields@ == positions(Selection::Known, fs)
    &&& x.fields_debug.with_unknown == (positions(Selection::CatchAll, fs).len() > 0)
    &&& x.record.name@ == x.name@
    &&& x.record.derive_clone == !x.config.no_clone
    &&& x.record.derive_partial_eq == !x.config.no_partial_eq
    &&& x.debug.label@ == x.name@
    &&& x.debug.fields@ == positions(Selection::Known, fs)
    &&& x.debug.with_unknown == (positions(Selection::CatchAll, fs).len() > 0)
    &&& x.constructor.name@ == renamed(x.config.constructor, "new"@)
    &&& x.constructor.params@ == positions(Selection::Required, fs)
    &&& specs_of(x.methods@) == record_methods(fs, x.config.with_len)
    &&& x.default_impl == (positions(Selection::Required, fs).len() == 0)
}

/// Derives everything for a declared record from the arguments of its
/// attribute and its declaration; fails, before anything is derived, where
/// the arguments or the fields break the schema's rules.
pub fn structible(args: Vec<ConfigArg>, item: StructDecl) -> (r: Result<Expansion, SchemaError>)
    ensures
        !config_accepted(args@) ==> r == Err::<Expansion, SchemaError>(config_from(args@)->Err_0),
        config_accepted(args@) && item.fields is Tuple ==> r == Err::<Expansion, SchemaError>(
            SchemaError::TupleStruct,
        ),
        config_accepted(args@) && item.fields is Unit ==> r == Err::<Expansion, SchemaError>(
            SchemaError::UnitStruct,
        ),
        config_accepted(args@) ==> (item.fields matches StructFields::Named(ds) ==> (
        first_decl_error(ds@) is Some ==> r == Err::<Expansion, SchemaError>(
            first_decl_error(ds@)->Some_0,
        ))),
        config_accepted(args@) ==> (item.fields matches StructFields::Named(ds) ==> (
        first_decl_error(ds@) is None ==> (r is Ok <==> forall|fs: Seq<FieldInfo>|
            classified_all(fs, ds@) ==> well_formed_fields(fs)))),
        config_accepted(args@) ==> (item.fields matches StructFields::Named(ds) ==> (
        first_decl_error(ds@) is None ==> (r matches Err(e) ==> exists|fs: Seq<FieldInfo>|
            classified_all(fs, ds@) && rule_error(fs, e)))),
        r matches Ok(x) ==> (expansion_of(x) && x.name == item.name && config_of(x.config, args@)
            && (item.fields matches StructFields::Named(ds) && classified_all(x.fields@, ds@))),
{
    let ghost declared = item.fields;
    let config = match StructibleConfig::parse(args) {
        Ok(c) => c,
        Err(e) => {
            return Err(e);
        },
    };
    let name = item.name;
    let fields = match parse_struct_fields(StructDecl { name: owned(""), fields: item.fields }) {
        Ok(fs) => fs,
        Err(e) => {
            proof {
                match declared {
                    StructFields::Named(ds) => {
                        if first_decl_error(ds@) is None {
                            let fs0 = choose|fs: Seq<FieldInfo>|
                                classified_all(fs, ds@) && rule_error(fs, e);
                            lemma_rule_error_not_well_formed(fs0, e);
                        }
                    },
                    _ => {},
                }
            }
            return Err(e);
        },
    };
    proof {
        match declared {
            StructFields::Named(ds) => {
                assert forall|fs: Seq<FieldInfo>| classified_all(fs, ds@) implies well_formed_fields(
                    fs,
                ) by {
                    lemma_classified_agree(fields@, fs, ds@);
                }
            },
            _ => {},
        }
    }
    let n = name.as_str();
    let field_enum = generate_field_enum(n, &fields);
    let value_enum = generate_value_enum(n, &fields);
    let fields_struct = generate_fields_struct(n, &config);
    let fields_methods = generate_fields_impl(&fields);
    let fields_debug = generate_fields_debug_impl(n, &fields);
    let record = generate_struct(n, &config);
    let debug = generate_debug_impl(n, &fields);
    let constructor = generate_constructor(&fields, &config);
    let methods = generate_impl(&fields, &config);
    let default_impl = generate_default_impl(&fields);
    Ok(
        Expansion {
            name,
            config,
            fields,
            field_enum,
            value_enum,
            fields_struct,
            fields_methods,
            fields_debug,
            record,
            debug,
            constructor,
            methods,
            default_impl,
        },
    )
}

/// The one-line summary documenting an accessor of kind `kind` on the field
/// named `name`, for the kinds that document one field.
pub open spec fn accessor_summary(kind: MethodKind, name: Seq<char>) -> Option<Seq<char>> {
    let quoted = unraw(name);
    match kind {
        MethodKind::Get => Some("Returns a reference to the `"@ + quoted + "` value."@),
        MethodKind::GetOptional => Some("Returns the `"@ + quoted + "` value if present."@),
        MethodKind::GetMut => Some("Returns a mutable reference to the `"@ + quoted + "` value."@),
        MethodKind::GetMutOptional => Some(
            "Returns a mutable reference to the `"@ + quoted + "` value if present."@,
        ),
        MethodKind::SetRequired => Some("Sets the `"@ + quoted + "` value."@),
        MethodKind::SetOptional => Some("Sets the `"@ + quoted + "` value."@),
        MethodKind::Remove => Some("Removes the field and returns the value if it was present."@),
        MethodKind::Take => Some("Removes and returns the field value if present."@),
        _ => None,
    }
}

/// The documentation of an accessor on a field: its summary line, then the
/// field's own doc lines under a heading; none for kinds that document no
/// single field.
pub fn accessor_doc(kind: MethodKind, name: &str, field_docs: &Vec<String>) -> (r: Option<String>)
    ensures
        match accessor_summary(kind, name@) {
            Some(summary) => (r matches Some(d) && d@ == method_doc(
                summary,
                field_docs@.map_values(|s: String| s@),
            )),
            None => r is None,
        },
{
    let summary = match kind {
        MethodKind::Get => compose("Returns a reference to the `", name, "` value."),
        MethodKind::GetOptional => compose("Returns the `", name, "` value if present."),
        MethodKind::GetMut => compose("Returns a mutable reference to the `", name, "` value."),
        MethodKind::GetMutOptional => compose(
            "Returns a mutable reference to the `",
            name,
            "` value if present.",
        ),
        MethodKind::SetRequired => compose("Sets the `", name, "` value."),
        MethodKind::SetOptional => compose("Sets the `", name, "` value."),
        MethodKind::Remove => owned("Removes the field and returns the value if it was present."),
        MethodKind::Take => owned("Removes and returns the field value if present."),
        _ => {
            return None;
        },
    };
    Some(format_method_doc(summary.as_str(), field_docs))
}

} // verus!
