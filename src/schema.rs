//! The schema of a record: its declared fields, how each is configured, and
//! the rules that classify them into required, optional and catch-all.
use vstd::prelude::*;
use crate::text::{owned, pascal_of, same_text, to_pascal_case};

verus! {

/// A declared type, as far as the rules read its shape, with its text.
#[derive(Debug)]
pub struct TypeRepr {
    /// The type as written.
    pub text: String,
    pub shape: TypeShape,
}

/// The shape of a declared type.
#[derive(Debug)]
pub enum TypeShape {
    /// A path such as `Option<String>` or `std::collections::HashMap`.
    Path { qself: bool, segments: Vec<PathSegment> },
    /// Any other type: a reference, an array, a tuple, a function pointer.
    Other,
}

/// One segment of a path type.
#[derive(Debug)]
pub struct PathSegment {
    pub ident: String,
    pub args: PathArgs,
}

/// The arguments of a path segment.
#[derive(Debug)]
pub enum PathArgs {
    /// No arguments.
    Bare,
    /// `<...>` arguments.
    Angle(Vec<GenericArg>),
    /// `(...)` arguments, as in `Fn(A) -> B`.
    Paren,
}

/// One argument between `<` and `>`.
#[derive(Debug)]
pub enum GenericArg {
    Type(TypeRepr),
    /// A lifetime, a constant or an associated-type binding.
    Other,
}

/// The value an optional reference points to.
pub open spec fn deref_opt<T>(o: Option<&T>) -> Option<T> {
    match o {
        Some(x) => Some(*x),
        None => None,
    }
}

/// The type that `ty` wraps in `Option<...>`, if it is exactly a
/// one-segment `Option` path with one type argument.
pub open spec fn option_inner(ty: TypeRepr) -> Option<TypeRepr> {
    match ty.shape {
        TypeShape::Path { qself, segments } => {
            if !qself && segments@.len() == 1 && segments@[0].ident@ == "Option"@ {
                match segments@[0].args {
                    PathArgs::Angle(args) => {
                        if args@.len() == 1 {
                            match args@[0] {
                                GenericArg::Type(inner) => Some(inner),
                                GenericArg::Other => None,
                            }
                        } else {
                            None
                        }
                    },
                    _ => None,
                }
            } else {
                None
            }
        },
        TypeShape::Other => None,
    }
}

/// The identifier that `ty` is, if it is a single bare path segment.
pub open spec fn ident_of(ty: TypeRepr) -> Option<String> {
    match ty.shape {
        TypeShape::Path { qself, segments } => {
            if !qself && segments@.len() == 1 && segments@[0].args is Bare {
                Some(segments@[0].ident)
            } else {
                None
            }
        },
        TypeShape::Other => None,
    }
}

/// If `ty` is `Option<T>`, returns `T`.
pub fn extract_option_inner(ty: &TypeRepr) -> (r: Option<&TypeRepr>)
    ensures
        deref_opt(r) == option_inner(*ty),
{
    proof {
        reveal_strlit("Option");
    }
    match &ty.shape {
        TypeShape::Path { qself, segments } => {
            if *qself || segments.len() != 1 {
                return None;
            }
            let segment = &segments[0];
            if !same_text(segment.ident.as_str(), "Option") {
                return None;
            }
            match &segment.args {
                PathArgs::Angle(args) => {
                    if args.len() != 1 {
                        return None;
                    }
                    match &args[0] {
                        GenericArg::Type(inner) => Some(inner),
                        GenericArg::Other => None,
                    }
                },
                _ => None,
            }
        },
        TypeShape::Other => None,
    }
}

/// The identifier that `ty` is, if it is one.
pub fn as_ident(ty: &TypeRepr) -> (r: Option<&String>)
    ensures
        deref_opt(r) == ident_of(*ty),
{
    match &ty.shape {
        TypeShape::Path { qself, segments } => {
            if *qself || segments.len() != 1 {
                return None;
            }
            match &segments[0].args {
                PathArgs::Bare => Some(&segments[0].ident),
                _ => None,
            }
        },
        TypeShape::Other => None,
    }
}

/// Moves the identifier out of a type that is one.
fn into_ident(ty: TypeRepr) -> (r: Option<String>)
    ensures
        r == ident_of(ty),
{
    match ty.shape {
        TypeShape::Path { qself, segments } => {
            if qself || segments.len() != 1 {
                return None;
            }
            let mut segments = segments;
            let segment = segments.remove(0);
            match segment.args {
                PathArgs::Bare => Some(segment.ident),
                _ => None,
            }
        },
        TypeShape::Other => None,
    }
}

/// Why a declaration cannot be turned into a record.
#[derive(Debug, PartialEq)]
pub enum SchemaError {
    /// The struct has unnamed (tuple) fields.
    TupleStruct,
    /// The struct has no fields at all.
    UnitStruct,
    /// A field has no name.
    UnnamedField,
    /// An argument of the struct attribute is not one of the known ones.
    UnknownAttribute(String),
    /// The constructor name given is not an identifier.
    ConstructorNotIdent,
    /// A field attribute names an option that does not exist.
    UnknownFieldAttribute(String),
    /// A field attribute option that takes a value has none.
    MissingValue(String),
    /// A field attribute option that takes a name was given something else.
    ExpectedIdent(String),
    /// More than one field is marked as the catch-all.
    MultipleCatchAll,
    /// The catch-all field is not declared as `Option<T>`.
    CatchAllMustBeOptional(String),
    /// Two fields give the same variant name.
    VariantCollision(String, String),
}

/// The container type a record is kept in.
#[derive(Debug)]
pub struct BackingType {
    pub ty: TypeRepr,
}

/// `ty` is the standard hash map, the container used where none is named.
pub open spec fn is_default_backing(ty: TypeRepr) -> bool {
    &&& ty.text@ == "::std::collections::HashMap"@
    &&& ty.shape matches TypeShape::Path { qself, segments } && !qself && segments@.len() == 3
        && segments@[0].ident@ == "std"@ && segments@[1].ident@ == "collections"@
        && segments@[2].ident@ == "HashMap"@ && segments@[2].args is Bare
}

/// A bare path segment.
fn bare_segment(name: &str) -> (r: PathSegment)
    ensures
        r.ident@ == name@,
        r.args is Bare,
{
    PathSegment { ident: owned(name), args: PathArgs::Bare }
}

impl BackingType {
    /// A backing container of the given type, used as written.
    pub fn from_type(ty: TypeRepr) -> (r: Self)
        ensures
            r.ty == ty,
    {
        BackingType { ty }
    }

    /// The standard hash map.
    fn hash_map() -> (r: Self)
        ensures
            is_default_backing(r.ty),
    {
        let mut segments: Vec<PathSegment> = Vec::new();
        segments.push(bare_segment("std"));
        segments.push(bare_segment("collections"));
        segments.push(bare_segment("HashMap"));
        BackingType {
            ty: TypeRepr {
                text: owned("::std::collections::HashMap"),
                shape: TypeShape::Path { qself: false, segments },
            },
        }
    }
}

impl Default for BackingType {
    /// The standard hash map, used where no container is named.
    fn default() -> (r: Self)
        ensures
            is_default_backing(r.ty),
    {
        BackingType::hash_map()
    }
}

/// One argument of the struct attribute.
#[derive(Debug)]
pub enum ConfigArg {
    /// A bare word or type: a flag, or the container type alone.
    Word(TypeRepr),
    /// `name = Type`.
    Assign(String, TypeRepr),
}

/// The struct-level configuration of a record.
#[derive(Debug)]
pub struct StructibleConfig {
    pub backing: BackingType,
    /// The constructor's name, where it is not `new`.
    pub constructor: Option<String>,
    /// Whether `len` and `is_empty` are generated.
    pub with_len: bool,
    /// Whether deriving `Clone` is left out.
    pub no_clone: bool,
    /// Whether deriving `PartialEq` is left out.
    pub no_partial_eq: bool,
}

/// The configuration collected from arguments read so far.
pub struct ConfigSoFar {
    pub backing: Option<TypeRepr>,
    pub constructor: Option<String>,
    pub with_len: bool,
    pub no_clone: bool,
    pub no_partial_eq: bool,
}

/// The flag that an argument is, if it is one.
pub open spec fn flag_of(a: ConfigArg) -> Option<Seq<char>> {
    match a {
        ConfigArg::Word(t) => match ident_of(t) {
            Some(i) => if i@ == "with_len"@ || i@ == "no_clone"@ || i@ == "no_partial_eq"@ {
                Some(i@)
            } else {
                None
            },
            None => None,
        },
        ConfigArg::Assign(_, _) => None,
    }
}

/// The arguments are the container type alone.
pub open spec fn is_shorthand(args: Seq<ConfigArg>) -> bool {
    args.len() == 1 && args[0] is Word && flag_of(args[0]) is None
}

/// What one argument does to the configuration collected so far.
pub open spec fn apply_arg(acc: ConfigSoFar, a: ConfigArg) -> Result<ConfigSoFar, SchemaError> {
    match a {
        ConfigArg::Word(t) => match flag_of(a) {
            Some(f) => if f == "with_len"@ {
                Ok(ConfigSoFar { with_len: true, ..acc })
            } else if f == "no_clone"@ {
                Ok(ConfigSoFar { no_clone: true, ..acc })
            } else {
                Ok(ConfigSoFar { no_partial_eq: true, ..acc })
            },
            None => Err(SchemaError::UnknownAttribute(t.text)),
        },
        ConfigArg::Assign(k, t) => if k@ == "backing"@ {
            Ok(ConfigSoFar { backing: Some(t), ..acc })
        } else if k@ == "constructor"@ {
            match ident_of(t) {
                Some(i) => Ok(ConfigSoFar { constructor: Some(i), ..acc }),
                None => Err(SchemaError::ConstructorNotIdent),
            }
        } else {
            Err(SchemaError::UnknownAttribute(k))
        },
    }
}

/// The configuration that the arguments give, read from first to last;
/// the first argument that is not understood is the error.
pub open spec fn config_from(args: Seq<ConfigArg>) -> Result<ConfigSoFar, SchemaError>
    decreases args.len(),
{
    if args.len() == 0 {
        Ok(ConfigSoFar {
            backing: None,
            constructor: None,
            with_len: false,
            no_clone: false,
            no_partial_eq: false,
        })
    } else {
        match config_from(args.drop_last()) {
            Ok(acc) => apply_arg(acc, args.last()),
            Err(e) => Err(e),
        }
    }
}

/// The arguments are understood: the container type alone, or arguments
/// that each name a known option or flag.
pub open spec fn config_accepted(args: Seq<ConfigArg>) -> bool {
    is_shorthand(args) || config_from(args) is Ok
}

/// `c` is the configuration that accepted arguments `args` give.
pub open spec fn config_of(c: StructibleConfig, args: Seq<ConfigArg>) -> bool {
    if is_shorthand(args) {
        c.backing.ty == args[0]->Word_0 && c.constructor is None && !c.with_len && !c.no_clone
            && !c.no_partial_eq
    } else {
        let acc = config_from(args)->Ok_0;
        &&& c.constructor == acc.constructor
        &&& c.with_len == acc.with_len
        &&& c.no_clone == acc.no_clone
        &&& c.no_partial_eq == acc.no_partial_eq
        &&& match acc.backing {
            Some(t) => c.backing.ty == t,
            None => is_default_backing(c.backing.ty),
        }
    }
}

/// Whether an identifier is one of the flags of the struct attribute.
fn flag_name(t: &TypeRepr) -> (r: u8)
    ensures
        r == 0 <==> flag_of(ConfigArg::Word(*t)) is None,
        r == 1 <==> flag_of(ConfigArg::Word(*t)) == Some("with_len"@),
        r == 2 <==> flag_of(ConfigArg::Word(*t)) == Some("no_clone"@),
        r == 3 <==> flag_of(ConfigArg::Word(*t)) == Some("no_partial_eq"@),
{
    proof {
        reveal_strlit("with_len");
        reveal_strlit("no_clone");
        reveal_strlit("no_partial_eq");
        assert("with_len"@[0] != "no_clone"@[0]);
        assert("with_len"@.len() != "no_partial_eq"@.len());
        assert("no_clone"@.len() != "no_partial_eq"@.len());
    }
    match as_ident(t) {
        Some(i) => {
            if same_text(i.as_str(), "with_len") {
                1
            } else if same_text(i.as_str(), "no_clone") {
                2
            } else if same_text(i.as_str(), "no_partial_eq") {
                3
            } else {
                0
            }
        },
        None => 0,
    }
}

/// Applies one argument to the configuration collected so far.
fn apply_config_arg(acc: ConfigSoFar, a: ConfigArg) -> (r: Result<ConfigSoFar, SchemaError>)
    ensures
        r == apply_arg(acc, a),
{
    proof {
        reveal_strlit("with_len");
        reveal_strlit("no_clone");
        reveal_strlit("backing");
        reveal_strlit("constructor");
    }
    match a {
        ConfigArg::Word(t) => {
            let flag = flag_name(&t);
            if flag == 1 {
                Ok(ConfigSoFar { with_len: true, ..acc })
            } else if flag == 2 {
                Ok(ConfigSoFar { no_clone: true, ..acc })
            } else if flag == 3 {
                Ok(ConfigSoFar { no_partial_eq: true, ..acc })
            } else {
                Err(SchemaError::UnknownAttribute(t.text))
            }
        },
        ConfigArg::Assign(k, t) => {
            if same_text(k.as_str(), "backing") {
                Ok(ConfigSoFar { backing: Some(t), ..acc })
            } else if same_text(k.as_str(), "constructor") {
                match into_ident(t) {
                    Some(i) => Ok(ConfigSoFar { constructor: Some(i), ..acc }),
                    None => Err(SchemaError::ConstructorNotIdent),
                }
            } else {
                Err(SchemaError::UnknownAttribute(k))
            }
        },
    }
}

impl StructibleConfig {
    /// Reads the arguments of the struct attribute.
    ///
    /// A single argument that is not a flag names the container type.
    /// Otherwise each argument is `backing = Type`, `constructor = name`, or
    /// one of the flags `with_len`, `no_clone`, `no_partial_eq`; where no
    /// container is named, the standard hash map is used.
    pub fn parse(args: Vec<ConfigArg>) -> (r: Result<StructibleConfig, SchemaError>)
        ensures
            config_accepted(args@) ==> (r matches Ok(c) && config_of(c, args@)),
            !config_accepted(args@) ==> r == Err::<StructibleConfig, SchemaError>(
                config_from(args@)->Err_0,
            ),
    {
        let ghost all = args@;
        let mut rest = args;
        let shorthand = rest.len() == 1 && match &rest[0] {
            ConfigArg::Word(t) => flag_name(t) == 0,
            ConfigArg::Assign(_, _) => false,
        };
        assert(shorthand == is_shorthand(all));
        if shorthand {
            match rest.remove(0) {
                ConfigArg::Word(t) => {
                    return Ok(
                        StructibleConfig {
                            backing: BackingType::from_type(t),
                            constructor: None,
                            with_len: false,
                            no_clone: false,
                            no_partial_eq: false,
                        },
                    );
                },
                ConfigArg::Assign(_, _) => {
                    assert(false);
                },
            }
        }
        let mut acc = ConfigSoFar {
            backing: None,
            constructor: None,
            with_len: false,
            no_clone: false,
            no_partial_eq: false,
        };
        let ghost mut done: Seq<ConfigArg> = Seq::empty();
        while rest.len() > 0
            invariant
                all == args@,
                all == done + rest@,
                !is_shorthand(all),
                config_from(done) == Ok::<ConfigSoFar, SchemaError>(acc),
            decreases rest.len(),
        {
            let a = rest.remove(0);
            proof {
                assert(done.push(a).drop_last() =~= done);
                done = done.push(a);
                assert(all =~= done + rest@);
            }
            match apply_config_arg(acc, a) {
                Ok(next) => {
                    acc = next;
                },
                Err(e) => {
                    proof {
                        assert(all.take(done.len() as int) =~= done);
                        assert(config_from(done) == Err::<ConfigSoFar, SchemaError>(e));
                        lemma_config_error_stays(all, done.len() as int);
                    }
                    return Err(e);
                },
            }
        }
        assert(done =~= all);
        let backing = match acc.backing {
            Some(t) => BackingType::from_type(t),
            None => BackingType::default(),
        };
        Ok(
            StructibleConfig {
                backing,
                constructor: acc.constructor,
                with_len: acc.with_len,
                no_clone: acc.no_clone,
                no_partial_eq: acc.no_partial_eq,
            },
        )
    }
}

/// Once the arguments read so far give an error, reading more keeps it.
proof fn lemma_config_error_stays(args: Seq<ConfigArg>, n: int)
    requires
        0 <= n <= args.len(),
        config_from(args.take(n)) is Err,
    ensures
        config_from(args) == config_from(args.take(n)),
    decreases args.len() - n,
{
    if n < args.len() {
        assert(args.take(n + 1).drop_last() =~= args.take(n));
        lemma_config_error_stays(args, n + 1);
    } else {
        assert(args.take(n) =~= args);
    }
}

/// One option inside a field's `#[structible(...)]` attribute: `name` or `name = value`.
#[derive(Debug)]
pub struct AttrItem {
    pub key: String,
    pub value: Option<TypeRepr>,
}

/// An attribute on a declared field.
#[derive(Debug)]
pub enum FieldAttr {
    /// `#[structible(...)]`, with its options in order.
    Structible(Vec<AttrItem>),
    /// A doc comment line.
    Doc(String),
    /// Any other attribute, as written.
    Other(String),
}

/// The per-field configuration: renamed accessors, and the key type that
/// makes a field the catch-all.
#[derive(Debug)]
pub struct FieldConfig {
    pub get: Option<String>,
    pub get_mut: Option<String>,
    pub set: Option<String>,
    pub remove: Option<String>,
    /// Where present, the field is the catch-all, with this key type.
    pub unknown_key: Option<TypeRepr>,
}

/// The configuration of a field with no options.
pub open spec fn empty_field_config() -> FieldConfig {
    FieldConfig { get: None, get_mut: None, set: None, remove: None, unknown_key: None }
}

/// What one option does to the field configuration collected so far.
pub open spec fn apply_item(c: FieldConfig, item: AttrItem) -> Result<FieldConfig, SchemaError> {
    let k = item.key@;
    if k == "get"@ || k == "get_mut"@ || k == "set"@ || k == "remove"@ {
        match item.value {
            None => Err(SchemaError::MissingValue(item.key)),
            Some(t) => match ident_of(t) {
                None => Err(SchemaError::ExpectedIdent(item.key)),
                Some(i) => if k == "get"@ {
                    Ok(FieldConfig { get: Some(i), ..c })
                } else if k == "get_mut"@ {
                    Ok(FieldConfig { get_mut: Some(i), ..c })
                } else if k == "set"@ {
                    Ok(FieldConfig { set: Some(i), ..c })
                } else {
                    Ok(FieldConfig { remove: Some(i), ..c })
                },
            },
        }
    } else if k == "key"@ {
        match item.value {
            None => Err(SchemaError::MissingValue(item.key)),
            Some(t) => Ok(FieldConfig { unknown_key: Some(t), ..c }),
        }
    } else {
        Err(SchemaError::UnknownFieldAttribute(item.key))
    }
}

/// The field configuration that the options give, read from first to last;
/// the first option that is not understood is the error.
pub open spec fn field_config_from(items: Seq<AttrItem>) -> Result<FieldConfig, SchemaError>
    decreases items.len(),
{
    if items.len() == 0 {
        Ok(empty_field_config())
    } else {
        match field_config_from(items.drop_last()) {
            Ok(c) => apply_item(c, items.last()),
            Err(e) => Err(e),
        }
    }
}

/// The options of all `#[structible(...)]` attributes among `attrs`, in order.
pub open spec fn structible_items(attrs: Seq<FieldAttr>) -> Seq<AttrItem>
    decreases attrs.len(),
{
    if attrs.len() == 0 {
        Seq::empty()
    } else {
        structible_items(attrs.drop_last()) + match attrs.last() {
            FieldAttr::Structible(items) => items@,
            _ => Seq::empty(),
        }
    }
}

/// The attributes among `attrs` that stay on the field, in order.
pub open spec fn kept_attrs(attrs: Seq<FieldAttr>) -> Seq<FieldAttr>
    decreases attrs.len(),
{
    if attrs.len() == 0 {
        Seq::empty()
    } else {
        kept_attrs(attrs.drop_last()) + match attrs.last() {
            FieldAttr::Structible(_) => Seq::empty(),
            a => seq![a],
        }
    }
}

/// Applies one option to the field configuration collected so far.
fn apply_field_item(c: FieldConfig, item: AttrItem) -> (r: Result<FieldConfig, SchemaError>)
    ensures
        r == apply_item(c, item),
{
    proof {
        reveal_strlit("get");
        reveal_strlit("get_mut");
        reveal_strlit("set");
        reveal_strlit("remove");
        reveal_strlit("key");
    }
    let k = item.key.as_str();
    let is_get = same_text(k, "get");
    let is_get_mut = same_text(k, "get_mut");
    let is_set = same_text(k, "set");
    let is_remove = same_text(k, "remove");
    if is_get || is_get_mut || is_set || is_remove {
        match item.value {
            None => Err(SchemaError::MissingValue(item.key)),
            Some(t) => match into_ident(t) {
                None => Err(SchemaError::ExpectedIdent(item.key)),
                Some(i) => if is_get {
                    Ok(FieldConfig { get: Some(i), ..c })
                } else if is_get_mut {
                    Ok(FieldConfig { get_mut: Some(i), ..c })
                } else if is_set {
                    Ok(FieldConfig { set: Some(i), ..c })
                } else {
                    Ok(FieldConfig { remove: Some(i), ..c })
                },
            },
        }
    } else if same_text(k, "key") {
        match item.value {
            None => Err(SchemaError::MissingValue(item.key)),
            Some(t) => Ok(FieldConfig { unknown_key: Some(t), ..c }),
        }
    } else {
        Err(SchemaError::UnknownFieldAttribute(item.key))
    }
}

/// Once the options read so far give an error, reading more keeps it.
proof fn lemma_field_config_error_stays(items: Seq<AttrItem>, n: int)
    requires
        0 <= n <= items.len(),
        field_config_from(items.take(n)) is Err,
    ensures
        field_config_from(items) == field_config_from(items.take(n)),
    decreases items.len() - n,
{
    if n < items.len() {
        assert(items.take(n + 1).drop_last() =~= items.take(n));
        lemma_field_config_error_stays(items, n + 1);
    } else {
        assert(items.take(n) =~= items);
    }
}

/// Reads the options of a field's `#[structible(...)]` attributes.
///
/// `get`, `get_mut`, `set` and `remove` rename an accessor and take a name;
/// `key` makes the field the catch-all and takes its key type.
pub fn parse_field_config(items: Vec<AttrItem>) -> (r: Result<FieldConfig, SchemaError>)
    ensures
        r == field_config_from(items@),
{
    let ghost all = items@;
    let mut rest = items;
    let mut c = FieldConfig { get: None, get_mut: None, set: None, remove: None, unknown_key: None };
    let ghost mut done: Seq<AttrItem> = Seq::empty();
    while rest.len() > 0
        invariant
            all == items@,
            all == done + rest@,
            field_config_from(done) == Ok::<FieldConfig, SchemaError>(c),
        decreases rest.len(),
    {
        let item = rest.remove(0);
        proof {
            assert(done.push(item).drop_last() =~= done);
            done = done.push(item);
            assert(all =~= done + rest@);
        }
        match apply_field_item(c, item) {
            Ok(next) => {
                c = next;
            },
            Err(e) => {
                proof {
                    assert(all.take(done.len() as int) =~= done);
                    lemma_field_config_error_stays(all, done.len() as int);
                }
                return Err(e);
            },
        }
    }
    assert(done =~= all);
    Ok(c)
}

/// Parts a field's attributes into the options of its `#[structible(...)]`
/// attributes and the attributes that stay on the field.
pub fn split_attrs(attrs: Vec<FieldAttr>) -> (r: (Vec<AttrItem>, Vec<FieldAttr>))
    ensures
        r.0@ == structible_items(attrs@),
        r.1@ == kept_attrs(attrs@),
{
    let ghost all = attrs@;
    let mut rest = attrs;
    let mut items: Vec<AttrItem> = Vec::new();
    let mut kept: Vec<FieldAttr> = Vec::new();
    let ghost mut done: Seq<FieldAttr> = Seq::empty();
    while rest.len() > 0
        invariant
            all == attrs@,
            all == done + rest@,
            items@ == structible_items(done),
            kept@ == kept_attrs(done),
        decreases rest.len(),
    {
        let a = rest.remove(0);
        proof {
            assert(done.push(a).drop_last() =~= done);
            done = done.push(a);
            assert(all =~= done + rest@);
        }
        match a {
            FieldAttr::Structible(more) => {
                let mut more = more;
                items.append(&mut more);
            },
            other => {
                kept.push(other);
            },
        }
        proof {
            assert(items@ =~= structible_items(done));
            assert(kept@ =~= kept_attrs(done));
        }
    }
    assert(done =~= all);
    (items, kept)
}

/// A field as declared.
#[derive(Debug)]
pub struct FieldDecl {
    /// The field's name; none for a tuple field.
    pub name: Option<String>,
    pub ty: TypeRepr,
    /// The field's visibility, as written.
    pub vis: String,
    pub attrs: Vec<FieldAttr>,
}

/// A declared field, classified.
#[derive(Debug)]
pub struct FieldInfo {
    pub name: String,
    /// The declared type.
    pub ty: TypeRepr,
    /// Whether the declared type is `Option<T>`.
    pub is_optional: bool,
    pub vis: String,
    /// The attributes that stay on the field.
    pub attrs: Vec<FieldAttr>,
    pub config: FieldConfig,
}

/// The type a field's values have: `T` for a field declared `Option<T>`,
/// else the declared type.
pub open spec fn inner_type(ty: TypeRepr) -> TypeRepr {
    match option_inner(ty) {
        Some(t) => t,
        None => ty,
    }
}

/// The error, if any, in turning `d` into a field.
pub open spec fn decl_error(d: FieldDecl) -> Option<SchemaError> {
    if d.name is None {
        Some(SchemaError::UnnamedField)
    } else {
        match field_config_from(structible_items(d.attrs@)) {
            Err(e) => Some(e),
            Ok(_) => None,
        }
    }
}

/// `info` is what `d` turns into.
pub open spec fn classified_from(info: FieldInfo, d: FieldDecl) -> bool {
    &&& d.name == Some(info.name)
    &&& info.ty == d.ty
    &&& info.is_optional == option_inner(d.ty) is Some
    &&& info.vis == d.vis
    &&& info.attrs@ == kept_attrs(d.attrs@)
    &&& field_config_from(structible_items(d.attrs@)) == Ok::<FieldConfig, SchemaError>(info.config)
}

/// The field is the catch-all.
pub open spec fn is_catch_all(f: FieldInfo) -> bool {
    f.config.unknown_key is Some
}

impl FieldInfo {
    /// Classifies a declared field.
    pub fn from_field(field: FieldDecl) -> (r: Result<FieldInfo, SchemaError>)
        ensures
            match decl_error(field) {
                Some(e) => r == Err::<FieldInfo, SchemaError>(e),
                None => (r matches Ok(info) && classified_from(info, field)),
            },
    {
        let FieldDecl { name, ty, vis, attrs } = field;
        let name = match name {
            Some(n) => n,
            None => {
                return Err(SchemaError::UnnamedField);
            },
        };
        let is_optional = extract_option_inner(&ty).is_some();
        let (items, kept) = split_attrs(attrs);
        let config = match parse_field_config(items) {
            Ok(c) => c,
            Err(e) => {
                return Err(e);
            },
        };
        Ok(FieldInfo { name, ty, is_optional, vis, attrs: kept, config })
    }

    /// Whether this field is the catch-all.
    pub fn is_unknown_field(&self) -> (r: bool)
        ensures
            r == is_catch_all(*self),
    {
        self.config.unknown_key.is_some()
    }

    /// The catch-all's key type, if this field is the catch-all.
    pub fn unknown_key_type(&self) -> (r: Option<&TypeRepr>)
        ensures
            deref_opt(r) == self.config.unknown_key,
    {
        match &self.config.unknown_key {
            Some(t) => Some(t),
            None => None,
        }
    }

    /// The type of the field's values: `T` for `Option<T>`, else the declared type.
    pub fn inner_ty(&self) -> (r: &TypeRepr)
        ensures
            *r == inner_type(self.ty),
    {
        match extract_option_inner(&self.ty) {
            Some(t) => t,
            None => &self.ty,
        }
    }
}

/// The fields of a declared struct.
#[derive(Debug)]
pub enum StructFields {
    Named(Vec<FieldDecl>),
    Tuple,
    Unit,
}

/// A struct as declared.
#[derive(Debug)]
pub struct StructDecl {
    pub name: String,
    pub fields: StructFields,
}

/// The first error among the declared fields, read in order.
pub open spec fn first_decl_error(ds: Seq<FieldDecl>) -> Option<SchemaError>
    decreases ds.len(),
{
    if ds.len() == 0 {
        None
    } else {
        match first_decl_error(ds.drop_last()) {
            Some(e) => Some(e),
            None => decl_error(ds.last()),
        }
    }
}

/// How many of the fields are catch-alls.
pub open spec fn catch_all_count(fs: Seq<FieldInfo>) -> nat
    decreases fs.len(),
{
    if fs.len() == 0 {
        0
    } else {
        catch_all_count(fs.drop_last()) + if is_catch_all(fs.last()) {
            1nat
        } else {
            0nat
        }
    }
}

/// Two fields that are not the catch-all give the same variant name.
pub open spec fn collide(a: FieldInfo, b: FieldInfo) -> bool {
    !is_catch_all(a) && !is_catch_all(b) && pascal_of(a.name@) == pascal_of(b.name@)
}

/// The classified fields pass the schema's rules: at most one catch-all,
/// declared optional, and no two variant names alike.
pub open spec fn well_formed_fields(fs: Seq<FieldInfo>) -> bool {
    &&& catch_all_count(fs) <= 1
    &&& forall|i: int| 0 <= i < fs.len() && is_catch_all(#[trigger] fs[i]) ==> fs[i].is_optional
    &&& forall|i: int, j: int| 0 <= i < j < fs.len() ==> !collide(#[trigger] fs[i], #[trigger] fs[j])
}

/// Each field of `fs` is what the declaration at its place turns into.
pub open spec fn classified_all(fs: Seq<FieldInfo>, ds: Seq<FieldDecl>) -> bool {
    &&& fs.len() == ds.len()
    &&& forall|i: int| 0 <= i < fs.len() ==> classified_from(#[trigger] fs[i], ds[i])
}

/// `e` is an error that the schema's rules raise on the classified fields
/// `fs`: more than one catch-all; else a catch-all not declared optional;
/// else two fields whose variant names are alike.
pub open spec fn rule_error(fs: Seq<FieldInfo>, e: SchemaError) -> bool {
    ||| catch_all_count(fs) > 1 && e == SchemaError::MultipleCatchAll
    ||| catch_all_count(fs) <= 1 && exists|i: int|
        0 <= i < fs.len() && is_catch_all(#[trigger] fs[i]) && !fs[i].is_optional && e
            == SchemaError::CatchAllMustBeOptional(fs[i].name)
    ||| catch_all_count(fs) <= 1 && (forall|i: int|
        0 <= i < fs.len() && is_catch_all(#[trigger] fs[i]) ==> fs[i].is_optional) && exists|
        i: int,
        j: int,
    |
        0 <= i < j < fs.len() && collide(#[trigger] fs[i], #[trigger] fs[j]) && e
            == SchemaError::VariantCollision(fs[i].name, fs[j].name)
}

/// Once the declarations read so far hold an error, reading more keeps it.
proof fn lemma_decl_error_stays(ds: Seq<FieldDecl>, n: int)
    requires
        0 <= n <= ds.len(),
        first_decl_error(ds.take(n)) is Some,
    ensures
        first_decl_error(ds) == first_decl_error(ds.take(n)),
    decreases ds.len() - n,
{
    if n < ds.len() {
        assert(ds.take(n + 1).drop_last() =~= ds.take(n));
        lemma_decl_error_stays(ds, n + 1);
    } else {
        assert(ds.take(n) =~= ds);
    }
}

/// Counts the catch-all fields.
fn count_catch_alls(fs: &Vec<FieldInfo>) -> (r: usize)
    ensures
        r == catch_all_count(fs@),
{
    let mut count: usize = 0;
    let mut i: usize = 0;
    while i < fs.len()
        invariant
            0 <= i <= fs.len(),
            count == catch_all_count(fs@.take(i as int)),
            count <= i,
        decreases fs.len() - i,
    {
        assert(fs@.take(i + 1).drop_last() =~= fs@.take(i as int));
        if fs[i].is_unknown_field() {
            count += 1;
        }
        i += 1;
    }
    assert(fs@.take(fs.len() as int) =~= fs@);
    count
}

/// Classifies the fields of a declared struct and checks the schema's rules.
pub fn parse_struct_fields(item: StructDecl) -> (r: Result<Vec<FieldInfo>, SchemaError>)
    ensures
        item.fields is Tuple ==> r == Err::<Vec<FieldInfo>, SchemaError>(SchemaError::TupleStruct),
        item.fields is Unit ==> r == Err::<Vec<FieldInfo>, SchemaError>(SchemaError::UnitStruct),
        item.fields matches StructFields::Named(ds) ==> match first_decl_error(ds@) {
            Some(e) => r == Err::<Vec<FieldInfo>, SchemaError>(e),
            None => match r {
                Ok(fs) => classified_all(fs@, ds@) && well_formed_fields(fs@),
                Err(e) => exists|fs: Seq<FieldInfo>| classified_all(fs, ds@) && rule_error(fs, e),
            },
        },
{
    let decls = match item.fields {
        StructFields::Named(ds) => ds,
        StructFields::Tuple => {
            return Err(SchemaError::TupleStruct);
        },
        StructFields::Unit => {
            return Err(SchemaError::UnitStruct);
        },
    };
    let ghost all = decls@;
    let mut rest = decls;
    let mut infos: Vec<FieldInfo> = Vec::new();
    let ghost mut done: Seq<FieldDecl> = Seq::empty();
    while rest.len() > 0
        invariant
            item.fields matches StructFields::Named(ds) && ds@ == all,
            all == done + rest@,
            first_decl_error(done) is None,
            classified_all(infos@, done),
        decreases rest.len(),
    {
        let d = rest.remove(0);
        proof {
            assert(done.push(d).drop_last() =~= done);
            done = done.push(d);
            assert(all =~= done + rest@);
        }
        match FieldInfo::from_field(d) {
            Ok(info) => {
                infos.push(info);
            },
            Err(e) => {
                proof {
                    assert(all.take(done.len() as int) =~= done);
                    lemma_decl_error_stays(all, done.len() as int);
                }
                return Err(e);
            },
        }
    }
    assert(done =~= all);
    let ghost fs = infos@;
    if count_catch_alls(&infos) > 1 {
        assert(rule_error(fs, SchemaError::MultipleCatchAll));
        return Err(SchemaError::MultipleCatchAll);
    }
    let mut i: usize = 0;
    while i < infos.len()
        invariant
            item.fields matches StructFields::Named(ds) && ds@ == all,
            classified_all(fs, all),
            first_decl_error(all) is None,
            catch_all_count(fs) <= 1,
            infos@ == fs,
            0 <= i <= infos.len(),
            forall|k: int| 0 <= k < i && is_catch_all(#[trigger] fs[k]) ==> fs[k].is_optional,
        decreases infos.len() - i,
    {
        if infos[i].is_unknown_field() && !infos[i].is_optional {
            let f = infos.remove(i);
            assert(rule_error(fs, SchemaError::CatchAllMustBeOptional(f.name)));
            return Err(SchemaError::CatchAllMustBeOptional(f.name));
        }
        i += 1;
    }
    let mut variants: Vec<String> = Vec::new();
    let mut k: usize = 0;
    while k < infos.len()
        invariant
            item.fields matches StructFields::Named(ds) && ds@ == all,
            classified_all(fs, all),
            first_decl_error(all) is None,
            catch_all_count(fs) <= 1,
            forall|k: int| 0 <= k < fs.len() && is_catch_all(#[trigger] fs[k]) ==> fs[k].is_optional,
            infos@ == fs,
            0 <= k <= infos.len(),
            variants.len() == k,
            forall|m: int| 0 <= m < k ==> (#[trigger] variants@[m])@ == pascal_of(fs[m].name@),
        decreases infos.len() - k,
    {
        variants.push(to_pascal_case(infos[k].name.as_str()));
        k += 1;
    }
    let mut i: usize = 0;
    while i < infos.len()
        invariant
            item.fields matches StructFields::Named(ds) && ds@ == all,
            classified_all(fs, all),
            first_decl_error(all) is None,
            catch_all_count(fs) <= 1,
            forall|k: int| 0 <= k < fs.len() && is_catch_all(#[trigger] fs[k]) ==> fs[k].is_optional,
            infos@ == fs,
            variants.len() == fs.len(),
            forall|m: int| 0 <= m < fs.len() ==> (#[trigger] variants@[m])@ == pascal_of(fs[m].name@),
            0 <= i <= infos.len(),
            forall|a: int, b: int| 0 <= a < i && a < b < fs.len() ==> !collide(#[trigger] fs[a], #[trigger] fs[b]),
        decreases infos.len() - i,
    {
        let mut j: usize = i + 1;
        while j < infos.len()
            invariant
                item.fields matches StructFields::Named(ds) && ds@ == all,
                classified_all(fs, all),
                first_decl_error(all) is None,
                catch_all_count(fs) <= 1,
                forall|k: int| 0 <= k < fs.len() && is_catch_all(#[trigger] fs[k]) ==> fs[k].is_optional,
                infos@ == fs,
                variants.len() == fs.len(),
                forall|m: int| 0 <= m < fs.len() ==> (#[trigger] variants@[m])@ == pascal_of(fs[m].name@),
                i < infos.len(),
                i + 1 <= j <= infos.len(),
                forall|a: int, b: int| 0 <= a < i && a < b < fs.len() ==> !collide(#[trigger] fs[a], #[trigger] fs[b]),
                forall|b: int| i < b < j ==> !collide(fs[i as int], #[trigger] fs[b]),
            decreases infos.len() - j,
        {
            if !infos[i].is_unknown_field() && !infos[j].is_unknown_field() && variants[i] == variants[j] {
                proof {
                    assert(collide(fs[i as int], fs[j as int]));
                }
                let second = infos.remove(j);
                let first = infos.remove(i);
                assert(rule_error(fs, SchemaError::VariantCollision(first.name, second.name)));
                return Err(SchemaError::VariantCollision(first.name, second.name));
            }
            j += 1;
        }
        i += 1;
    }
    Ok(infos)
}

/// The doc comment lines among `attrs`, in order.
pub open spec fn doc_lines(attrs: Seq<FieldAttr>) -> Seq<Seq<char>>
    decreases attrs.len(),
{
    if attrs.len() == 0 {
        Seq::empty()
    } else {
        doc_lines(attrs.drop_last()) + match attrs.last() {
            FieldAttr::Doc(d) => seq![d@],
            _ => Seq::empty(),
        }
    }
}

/// The doc comment lines of a field, in order; none where it has none.
pub fn extract_doc_comments(attrs: &Vec<FieldAttr>) -> (r: Vec<String>)
    ensures
        r@.map_values(|d: String| d@) == doc_lines(attrs@),
{
    let mut out: Vec<String> = Vec::new();
    let mut i: usize = 0;
    while i < attrs.len()
        invariant
            0 <= i <= attrs.len(),
            out@.map_values(|d: String| d@) == doc_lines(attrs@.take(i as int)),
        decreases attrs.len() - i,
    {
        assert(attrs@.take(i + 1).drop_last() =~= attrs@.take(i as int));
        match &attrs[i] {
            FieldAttr::Doc(d) => {
                out.push(d.clone());
            },
            _ => {},
        }
        assert(out@.map_values(|d: String| d@) =~= doc_lines(attrs@.take(i + 1)));
        i += 1;
    }
    assert(attrs@.take(attrs.len() as int) =~= attrs@);
    out
}

/// A field rule's error means the fields are not well formed.
pub proof fn lemma_rule_error_not_well_formed(fs: Seq<FieldInfo>, e: SchemaError)
    requires
        rule_error(fs, e),
    ensures
        !well_formed_fields(fs),
{
    if catch_all_count(fs) <= 1 {
        if exists|i: int| 0 <= i < fs.len() && is_catch_all(#[trigger] fs[i]) && !fs[i].is_optional {
        } else {
            let (i, j) = choose|i: int, j: int|
                0 <= i < j < fs.len() && collide(#[trigger] fs[i], #[trigger] fs[j]) && e
                    == SchemaError::VariantCollision(fs[i].name, fs[j].name);
            assert(collide(fs[i], fs[j]));
        }
    }
}

/// Two classifications of the same declarations agree on the rules.
pub proof fn lemma_classified_agree(fs1: Seq<FieldInfo>, fs2: Seq<FieldInfo>, ds: Seq<FieldDecl>)
    requires
        classified_all(fs1, ds),
        classified_all(fs2, ds),
    ensures
        catch_all_count(fs1) == catch_all_count(fs2),
        well_formed_fields(fs1) == well_formed_fields(fs2),
    decreases ds.len(),
{
    assert forall|i: int| 0 <= i < fs1.len() implies #[trigger] fs1[i].name == fs2[i].name
        && fs1[i].is_optional == fs2[i].is_optional && fs1[i].config == fs2[i].config by {
        assert(classified_from(fs1[i], ds[i]));
        assert(classified_from(fs2[i], ds[i]));
    }
    if ds.len() > 0 {
        let (a, b, d) = (fs1.drop_last(), fs2.drop_last(), ds.drop_last());
        assert forall|i: int| 0 <= i < a.len() implies classified_from(#[trigger] a[i], d[i]) by {
            assert(a[i] == fs1[i] && d[i] == ds[i]);
            assert(classified_from(fs1[i], ds[i]));
        }
        assert forall|i: int| 0 <= i < b.len() implies classified_from(#[trigger] b[i], d[i]) by {
            assert(b[i] == fs2[i] && d[i] == ds[i]);
            assert(classified_from(fs2[i], ds[i]));
        }
        lemma_classified_agree(a, b, d);
        assert(fs1.last().config == fs2.last().config);
    }
    if well_formed_fields(fs1) {
        assert forall|i: int, j: int| 0 <= i < j < fs2.len() implies !collide(#[trigger] fs2[i], #[trigger] fs2[j]) by {
            assert(fs1[i].name == fs2[i].name && fs1[j].name == fs2[j].name);
            assert(fs1[i].config == fs2[i].config && fs1[j].config == fs2[j].config);
            assert(!collide(fs1[i], fs1[j]));
        }
        assert forall|i: int| 0 <= i < fs2.len() && is_catch_all(#[trigger] fs2[i]) implies fs2[i].is_optional by {
            assert(fs1[i].config == fs2[i].config);
        }
    }
    if well_formed_fields(fs2) {
        assert forall|i: int, j: int| 0 <= i < j < fs1.len() implies !collide(#[trigger] fs1[i], #[trigger] fs1[j]) by {
            assert(fs1[i].name == fs2[i].name && fs1[j].name == fs2[j].name);
            assert(fs1[i].config == fs2[i].config && fs1[j].config == fs2[j].config);
            assert(!collide(fs2[i], fs2[j]));
        }
        assert forall|i: int| 0 <= i < fs1.len() && is_catch_all(#[trigger] fs1[i]) implies fs1[i].is_optional by {
            assert(fs1[i].config == fs2[i].config);
        }
    }
}

} // verus!
