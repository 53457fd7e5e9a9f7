//! Schema resolution: from a type's declarative configuration to a
//! validated codec plan.
//!
//! Every concern (rename, rename-all, bound, tag, content, skip, default,
//! aliasing, identifier role) is resolved independently; a concern declared
//! twice for the same scope is a defect reported at the second occurrence's
//! location; defects accumulate so the caller sees every one of them in a
//! single report.
use vstd::prelude::*;

verus! {

/// Character-for-character string equality, decided through the UTF-8
/// bytes and carried back to the character sequences by the injectivity of
/// the encoding.
pub fn str_eq(a: &str, b: &str) -> (r: bool)
    ensures
        r <==> a@ == b@,
{
    proof {
        vstd::utf8::encode_utf8_decode_utf8(a@);
        vstd::utf8::encode_utf8_decode_utf8(b@);
    }
    let ab = a.as_bytes();
    let bb = b.as_bytes();
    let n = ab.len();
    if n != bb.len() {
        return false;
    }
    let mut i: usize = 0;
    #[verifier::loop_isolation(false)]
    while i < n
        invariant
            0 <= i <= n,
            forall|j: int| 0 <= j < i ==> ab@[j] == bb@[j],
        decreases n - i,
    {
        if *vstd::slice::slice_index_get(ab, i) != *vstd::slice::slice_index_get(bb, i) {
            return false;
        }
        i = i + 1;
    }
    proof {
        assert(ab@ =~= bb@);
    }
    true
}

/// The configuration words a declaration can carry.
#[derive(Debug, Clone, Copy, PartialEq, Eq, Structural)]
pub enum Symbol {
    Rename,
    RenameAll,
    DenyUnknown,
    DefaultValue,
    Bound,
    Untagged,
    Tag,
    Content,
    FromType,
    TryFromType,
    Remote,
    FieldIdentifier,
    VariantIdentifier,
    CrateName,
    OptimizeOption,
    Skip,
    SkipSerializing,
    SkipDeserializing,
    Alias,
    OtherVariant,
    SerializeWith,
    DeserializeWith,
    WithPath,
    Borrow,
}

/// What went wrong with one configuration item.
#[derive(Debug, Clone, PartialEq, Eq)]
pub enum ResolveErrorKind {
    /// The same concern was configured twice for one scope.
    DuplicateAttr(Symbol),
    /// A rename-all value that names no known case rule.
    UnknownRenameRule(String),
    /// `default` on a shape without named, addressable fields.
    DefaultOnUnnamedShape,
    /// `untagged` on anything but an enum.
    UntaggedNotOnEnum,
    /// `tag` on anything but an enum or a named-field struct.
    TagNotOnEnumOrNamedStruct,
    /// `content` on anything but an enum.
    ContentNotOnEnum,
    /// `content` configured with no `tag` to pair it with.
    ContentWithoutTag,
    /// `untagged` together with a `tag` or `content`.
    UntaggedWithTag,
    /// Both identifier roles claimed by one type.
    BothIdentifiers,
    /// `borrow` on a variant that is not a newtype.
    BorrowNotOnNewtype,
    /// A borrow declaration on a type with no lifetime to borrow.
    NoBorrowableLifetimes,
    /// A borrow declaration that lists no lifetime at all.
    EmptyLifetimeList,
    /// The same lifetime listed twice in one borrow declaration.
    DuplicateBorrowedLifetime(String),
    /// A configuration word this schema layer does not know.
    UnknownAttribute,
    /// A bare literal where a configuration item was expected.
    UnexpectedLiteral,
}

/// One configuration defect: where it was declared, and what it is.
#[derive(Debug, Clone, PartialEq, Eq)]
pub struct ResolveError {
    pub loc: usize,
    pub kind: ResolveErrorKind,
}

/// The defect collector: resolution never stops at the first defect, it
/// accumulates all of them here.
pub struct Ctxt {
    errors: Vec<ResolveError>,
}

impl Ctxt {
    pub closed spec fn spec_errors(&self) -> Seq<ResolveError> {
        self.errors@
    }

    pub fn new() -> (r: Ctxt)
        ensures
            r.spec_errors() == Seq::<ResolveError>::empty(),
    {
        Ctxt { errors: Vec::new() }
    }

    pub fn error(&mut self, loc: usize, kind: ResolveErrorKind)
        ensures
            final(self).spec_errors() == old(self).spec_errors().push(ResolveError { loc, kind }),
    {
        self.errors.push(ResolveError { loc, kind });
    }

    pub fn error_count(&self) -> (r: usize)
        ensures
            r == self.spec_errors().len(),
    {
        self.errors.len()
    }

    /// Hand over every collected defect, or nothing when resolution was
    /// clean.
    pub fn check(self) -> (r: Result<(), Vec<ResolveError>>)
        ensures
            r is Ok <==> self.spec_errors().len() == 0,
            r matches Err(v) ==> v@ == self.spec_errors(),
    {
        if self.errors.len() == 0 {
            Ok(())
        } else {
            Err(self.errors)
        }
    }

    pub fn errors(&self) -> (r: &Vec<ResolveError>)
        ensures
            r@ == self.spec_errors(),
    {
        &self.errors
    }
}

/// A set-once configuration slot: the first value wins, a second one is a
/// duplicate defect reported at its own location.
pub struct Attr<T> {
    name: Symbol,
    loc: usize,
    value: Option<T>,
}

impl<T> Attr<T> {
    pub closed spec fn spec_name(&self) -> Symbol {
        self.name
    }

    pub closed spec fn spec_value(&self) -> Option<T> {
        self.value
    }

    pub closed spec fn spec_loc(&self) -> usize {
        self.loc
    }

    pub fn none(name: Symbol) -> (r: Self)
        ensures
            r.spec_name() == name,
            r.spec_value() is None,
    {
        Attr { name, loc: 0, value: None }
    }

    pub fn set(&mut self, cx: &mut Ctxt, loc: usize, value: T)
        ensures
            final(self).spec_name() == old(self).spec_name(),
            old(self).spec_value() is Some ==> *final(self) == *old(self) && final(cx).spec_errors() == old(cx).spec_errors().push(
                ResolveError { loc, kind: ResolveErrorKind::DuplicateAttr(old(self).spec_name()) },
            ),
            old(self).spec_value() is None ==> final(self).spec_value() == Some(value) && final(self).spec_loc() == loc && *final(cx) == *old(cx),
    {
        if self.value.is_some() {
            cx.error(loc, ResolveErrorKind::DuplicateAttr(self.name));
        } else {
            self.loc = loc;
            self.value = Some(value);
        }
    }

    pub fn set_opt(&mut self, cx: &mut Ctxt, loc: usize, value: Option<T>)
        ensures
            final(self).spec_name() == old(self).spec_name(),
            value is None ==> *final(self) == *old(self) && *final(cx) == *old(cx),
            value matches Some(v) ==> ({
                &&& (old(self).spec_value() is Some ==> *final(self) == *old(self) && final(cx).spec_errors() == old(cx).spec_errors().push(
                    ResolveError {
                        loc,
                        kind: ResolveErrorKind::DuplicateAttr(old(self).spec_name()),
                    },
                ))
                &&& (old(self).spec_value() is None ==> final(self).spec_value() == Some(v)
                    && final(self).spec_loc() == loc && *final(cx) == *old(cx))
            }),
    {
        match value {
            Some(v) => self.set(cx, loc, v),
            None => {},
        }
    }

    pub fn set_if_none(&mut self, loc: usize, value: T)
        ensures
            final(self).spec_name() == old(self).spec_name(),
            old(self).spec_value() is Some ==> *final(self) == *old(self),
            old(self).spec_value() is None ==> final(self).spec_value() == Some(value) && final(self).spec_loc() == loc,
    {
        if self.value.is_none() {
            self.loc = loc;
            self.value = Some(value);
        }
    }

    pub fn get(self) -> (r: Option<T>)
        ensures
            r == self.spec_value(),
    {
        self.value
    }

    pub fn loc(&self) -> (r: usize)
        ensures
            r == self.spec_loc(),
    {
        self.loc
    }
}

/// A set-once flag.
pub struct BoolAttr {
    inner: Attr<()>,
}

impl BoolAttr {
    pub closed spec fn spec_name(&self) -> Symbol {
        self.inner.spec_name()
    }

    pub closed spec fn spec_set(&self) -> bool {
        self.inner.spec_value() is Some
    }

    pub fn none(name: Symbol) -> (r: Self)
        ensures
            r.spec_name() == name,
            !r.spec_set(),
    {
        BoolAttr { inner: Attr::none(name) }
    }

    pub fn set_true(&mut self, cx: &mut Ctxt, loc: usize)
        ensures
            final(self).spec_name() == old(self).spec_name(),
            old(self).spec_set() ==> final(self).spec_set() && final(cx).spec_errors() == old(cx).spec_errors().push(
                ResolveError { loc, kind: ResolveErrorKind::DuplicateAttr(old(self).spec_name()) },
            ),
            !old(self).spec_set() ==> final(self).spec_set() && *final(cx) == *old(cx),
    {
        self.inner.set(cx, loc, ());
    }

    pub fn get(&self) -> (r: bool)
        ensures
            r == self.spec_set(),
    {
        self.inner.value.is_some()
    }
}

/// A gather-all configuration slot: every value is kept, in declaration
/// order; asking for at most one reports a duplicate at the second
/// occurrence.
pub struct VecAttr<T> {
    name: Symbol,
    first_dup_loc: usize,
    values: Vec<T>,
}

impl<T> VecAttr<T> {
    pub closed spec fn spec_name(&self) -> Symbol {
        self.name
    }

    pub closed spec fn spec_values(&self) -> Seq<T> {
        self.values@
    }

    pub closed spec fn spec_first_dup_loc(&self) -> usize {
        self.first_dup_loc
    }

    pub fn none(name: Symbol) -> (r: Self)
        ensures
            r.spec_name() == name,
            r.spec_values() == Seq::<T>::empty(),
    {
        VecAttr { name, first_dup_loc: 0, values: Vec::new() }
    }

    pub fn insert(&mut self, loc: usize, value: T)
        ensures
            final(self).spec_name() == old(self).spec_name(),
            final(self).spec_values() == old(self).spec_values().push(value),
            old(self).spec_values().len() == 1 ==> final(self).spec_first_dup_loc() == loc,
            old(self).spec_values().len() != 1 ==> final(self).spec_first_dup_loc() == old(self).spec_first_dup_loc(),
    {
        if self.values.len() == 1 {
            self.first_dup_loc = loc;
        }
        self.values.push(value);
    }

    /// The single collected value, if any; more than one is a duplicate
    /// defect at the second occurrence's location.
    pub fn at_most_one(self, cx: &mut Ctxt) -> (r: Result<Option<T>, ()>)
        ensures
            self.spec_values().len() > 1 ==> r is Err && final(cx).spec_errors() == old(cx).spec_errors().push(
                ResolveError {
                    loc: self.spec_first_dup_loc(),
                    kind: ResolveErrorKind::DuplicateAttr(self.spec_name()),
                },
            ),
            self.spec_values().len() <= 1 ==> *final(cx) == *old(cx) && (r matches Ok(v) && v
                == if self.spec_values().len() == 1 {
                Some(self.spec_values()[0])
            } else {
                None
            }),
    {
        if self.values.len() > 1 {
            cx.error(self.first_dup_loc, ResolveErrorKind::DuplicateAttr(self.name));
            Err(())
        } else {
            let mut values = self.values;
            Ok(values.pop())
        }
    }

    pub fn get(self) -> (r: Vec<T>)
        ensures
            r@ == self.spec_values(),
    {
        self.values
    }
}

/// The case-conversion rules a rename-all value can name.
#[derive(Debug, Clone, Copy, PartialEq, Eq, Structural)]
pub enum RenameRule {
    Identity,
    LowerCase,
    UpperCase,
    PascalCase,
    CamelCase,
    SnakeCase,
    ScreamingSnakeCase,
    KebabCase,
    ScreamingKebabCase,
}

/// The rule a rename-all value stands for, if any.
pub open spec fn spec_rename_rule(s: Seq<char>) -> Option<RenameRule> {
    if s == "lowercase"@ {
        Some(RenameRule::LowerCase)
    } else if s == "UPPERCASE"@ {
        Some(RenameRule::UpperCase)
    } else if s == "PascalCase"@ {
        Some(RenameRule::PascalCase)
    } else if s == "camelCase"@ {
        Some(RenameRule::CamelCase)
    } else if s == "snake_case"@ {
        Some(RenameRule::SnakeCase)
    } else if s == "SCREAMING_SNAKE_CASE"@ {
        Some(RenameRule::ScreamingSnakeCase)
    } else if s == "kebab-case"@ {
        Some(RenameRule::KebabCase)
    } else if s == "SCREAMING-KEBAB-CASE"@ {
        Some(RenameRule::ScreamingKebabCase)
    } else {
        None
    }
}

impl RenameRule {
    /// Look a rename-all value up among the known case rules.
    pub fn from_str(s: &str) -> (r: Option<RenameRule>)
        ensures
            r == spec_rename_rule(s@),
    {
        if str_eq(s, "lowercase") {
            Some(RenameRule::LowerCase)
        } else if str_eq(s, "UPPERCASE") {
            Some(RenameRule::UpperCase)
        } else if str_eq(s, "PascalCase") {
            Some(RenameRule::PascalCase)
        } else if str_eq(s, "camelCase") {
            Some(RenameRule::CamelCase)
        } else if str_eq(s, "snake_case") {
            Some(RenameRule::SnakeCase)
        } else if str_eq(s, "SCREAMING_SNAKE_CASE") {
            Some(RenameRule::ScreamingSnakeCase)
        } else if str_eq(s, "kebab-case") {
            Some(RenameRule::KebabCase)
        } else if str_eq(s, "SCREAMING-KEBAB-CASE") {
            Some(RenameRule::ScreamingKebabCase)
        } else {
            None
        }
    }
}

} // verus!

verus! {

/// The shape of the container a declaration configures.
#[derive(Debug, Clone, Copy, PartialEq, Eq, Structural)]
pub enum ContainerShape {
    StructNamed,
    StructTuple,
    StructUnit,
    Enum,
    Union,
}

/// How a field that is absent on decode is filled in.
#[derive(Debug, Clone, PartialEq, Eq)]
pub enum DefaultPolicy {
    /// No default: the wire must supply the value.
    Required,
    /// The type's zero value.
    ZeroValue,
    /// A named function computes it.
    ComputedBy(String),
}

impl DefaultPolicy {
    pub fn is_none(&self) -> (r: bool)
        ensures
            r == (self is Required),
    {
        matches!(self, DefaultPolicy::Required)
    }
}

/// The enum wire-representation strategy.
#[derive(Debug, Clone, PartialEq, Eq)]
pub enum TagType {
    /// The variant name wraps the content.
    External,
    /// The content's fields are merged with a tag field.
    Internal { tag: String },
    /// Tag and content sit in sibling fields.
    Adjacent { tag: String, content: String },
    /// No tag at all: variants are told apart structurally.
    Untagged,
}

/// Whether this type is itself a tag enumeration for a sibling type.
#[derive(Debug, Clone, Copy, PartialEq, Eq, Structural)]
pub enum Identifier {
    /// It is not.
    No,
    /// It names the fields of a struct.
    Field,
    /// It names the variants of an enum.
    Variant,
}

impl Identifier {
    pub fn is_some(&self) -> (r: bool)
        ensures
            r == !(self is No),
    {
        match self {
            Identifier::No => false,
            Identifier::Field | Identifier::Variant => true,
        }
    }
}

/// One container-level configuration item, already read off the source
/// text by the out-of-scope front end.
#[derive(Debug, Clone, PartialEq, Eq)]
pub enum ContainerAttrKind {
    /// `rename = "..."`: both directions at once.
    Rename(String),
    /// `rename(serialize = ..., deserialize = ...)`.
    RenameSerDe(Option<String>, Option<String>),
    /// `rename_all = "rule"`.
    RenameAll(String),
    /// `rename_all(serialize = ..., deserialize = ...)`.
    RenameAllSerDe(Option<String>, Option<String>),
    DenyUnknownFields,
    /// `default`.
    DefaultValue,
    /// `default = "path"`.
    DefaultPath(String),
    /// `bound = "..."`: both directions at once.
    Bound(String),
    /// `bound(serialize = ..., deserialize = ...)`.
    BoundSerDe(Option<String>, Option<String>),
    Untagged,
    Tag(String),
    Content(String),
    FromType(String),
    TryFromType(String),
    Remote(String),
    FieldIdentifier,
    VariantIdentifier,
    CrateName(String),
    OptimizeOption,
    UnknownAttr,
    LiteralAttr,
}

#[derive(Debug, Clone, PartialEq, Eq)]
pub struct ContainerAttr {
    pub loc: usize,
    pub kind: ContainerAttrKind,
}

/// A whole container declaration: the identifier, the shape, and the
/// configuration items in source order.
#[derive(Debug, Clone, PartialEq, Eq)]
pub struct ContainerDecl {
    pub name: String,
    pub shape: ContainerShape,
    pub attrs: Vec<ContainerAttr>,
}

/// The per-concern record the container scan accumulates.
#[verifier::ext_equal]
pub struct ContainerState {
    pub ser_name: Option<String>,
    pub de_name: Option<String>,
    pub deny_unknown: bool,
    pub default_policy: DefaultPolicy,
    pub rename_all_ser: Option<RenameRule>,
    pub rename_all_de: Option<RenameRule>,
    pub ser_bound: Option<String>,
    pub de_bound: Option<String>,
    pub untagged: Option<usize>,
    pub tag: Option<(usize, String)>,
    pub content: Option<(usize, String)>,
    pub from_type: Option<String>,
    pub try_from_type: Option<String>,
    pub remote: Option<String>,
    pub field_identifier: Option<usize>,
    pub variant_identifier: Option<usize>,
    pub crate_name: Option<String>,
    pub optimize_option: bool,
}

/// First value wins.
pub open spec fn keep_first<T>(cur: Option<T>, v: T) -> Option<T> {
    if cur is Some {
        cur
    } else {
        Some(v)
    }
}

/// A second value for a set-once concern is a duplicate defect.
pub open spec fn dup_errs<T>(cur: Option<T>, loc: usize, name: Symbol) -> Seq<ResolveError> {
    if cur is Some {
        seq![ResolveError { loc, kind: ResolveErrorKind::DuplicateAttr(name) }]
    } else {
        Seq::empty()
    }
}

pub open spec fn dup_errs_flag(set: bool, loc: usize, name: Symbol) -> Seq<ResolveError> {
    if set {
        seq![ResolveError { loc, kind: ResolveErrorKind::DuplicateAttr(name) }]
    } else {
        Seq::empty()
    }
}

pub open spec fn container_state_init() -> ContainerState {
    ContainerState {
        ser_name: None,
        de_name: None,
        deny_unknown: false,
        default_policy: DefaultPolicy::Required,
        rename_all_ser: None,
        rename_all_de: None,
        ser_bound: None,
        de_bound: None,
        untagged: None,
        tag: None,
        content: None,
        from_type: None,
        try_from_type: None,
        remote: None,
        field_identifier: None,
        variant_identifier: None,
        crate_name: None,
        optimize_option: false,
    }
}

/// How one configuration item advances the per-concern record.
pub open spec fn container_state_step(
    st: ContainerState,
    shape: ContainerShape,
    name: String,
    item: ContainerAttr,
) -> ContainerState {
    match item.kind {
        ContainerAttrKind::Rename(s) => ContainerState {
            ser_name: keep_first(st.ser_name, s),
            de_name: keep_first(st.de_name, s),
            ..st
        },
        ContainerAttrKind::RenameSerDe(ser, de) => ContainerState {
            ser_name: match ser {
                Some(s) => keep_first(st.ser_name, s),
                None => st.ser_name,
            },
            de_name: match de {
                Some(s) => keep_first(st.de_name, s),
                None => st.de_name,
            },
            ..st
        },
        ContainerAttrKind::RenameAll(s) => match spec_rename_rule(s@) {
            Some(rule) => ContainerState {
                rename_all_ser: keep_first(st.rename_all_ser, rule),
                rename_all_de: keep_first(st.rename_all_de, rule),
                ..st
            },
            None => st,
        },
        ContainerAttrKind::RenameAllSerDe(ser, de) => {
            let st1 = match ser {
                Some(s) => match spec_rename_rule(s@) {
                    Some(rule) => ContainerState {
                        rename_all_ser: keep_first(st.rename_all_ser, rule),
                        ..st
                    },
                    None => st,
                },
                None => st,
            };
            match de {
                Some(s) => match spec_rename_rule(s@) {
                    Some(rule) => ContainerState {
                        rename_all_de: keep_first(st1.rename_all_de, rule),
                        ..st1
                    },
                    None => st1,
                },
                None => st1,
            }
        },
        ContainerAttrKind::DenyUnknownFields => ContainerState { deny_unknown: true, ..st },
        ContainerAttrKind::DefaultValue => {
            if shape is StructNamed {
                if st.default_policy is Required {
                    ContainerState { default_policy: DefaultPolicy::ZeroValue, ..st }
                } else {
                    st
                }
            } else {
                st
            }
        },
        ContainerAttrKind::DefaultPath(p) => {
            if shape is StructNamed {
                if st.default_policy is Required {
                    ContainerState { default_policy: DefaultPolicy::ComputedBy(p), ..st }
                } else {
                    st
                }
            } else {
                st
            }
        },
        ContainerAttrKind::Bound(s) => ContainerState {
            ser_bound: keep_first(st.ser_bound, s),
            de_bound: keep_first(st.de_bound, s),
            ..st
        },
        ContainerAttrKind::BoundSerDe(ser, de) => ContainerState {
            ser_bound: match ser {
                Some(s) => keep_first(st.ser_bound, s),
                None => st.ser_bound,
            },
            de_bound: match de {
                Some(s) => keep_first(st.de_bound, s),
                None => st.de_bound,
            },
            ..st
        },
        ContainerAttrKind::Untagged => {
            if shape is Enum {
                if st.untagged is None {
                    ContainerState { untagged: Some(item.loc), ..st }
                } else {
                    st
                }
            } else {
                st
            }
        },
        ContainerAttrKind::Tag(s) => {
            if shape is Enum || shape is StructNamed {
                if st.tag is None {
                    ContainerState { tag: Some((item.loc, s)), ..st }
                } else {
                    st
                }
            } else {
                st
            }
        },
        ContainerAttrKind::Content(s) => {
            if shape is Enum {
                if st.content is None {
                    ContainerState { content: Some((item.loc, s)), ..st }
                } else {
                    st
                }
            } else {
                st
            }
        },
        ContainerAttrKind::FromType(s) => ContainerState {
            from_type: keep_first(st.from_type, s),
            ..st
        },
        ContainerAttrKind::TryFromType(s) => ContainerState {
            try_from_type: keep_first(st.try_from_type, s),
            ..st
        },
        ContainerAttrKind::Remote(s) => ContainerState {
            remote: keep_first(st.remote, if s@ == "Self"@ { name } else { s }),
            ..st
        },
        ContainerAttrKind::FieldIdentifier => {
            if st.field_identifier is None {
                ContainerState { field_identifier: Some(item.loc), ..st }
            } else {
                st
            }
        },
        ContainerAttrKind::VariantIdentifier => {
            if st.variant_identifier is None {
                ContainerState { variant_identifier: Some(item.loc), ..st }
            } else {
                st
            }
        },
        ContainerAttrKind::CrateName(s) => ContainerState {
            crate_name: keep_first(st.crate_name, s),
            ..st
        },
        ContainerAttrKind::OptimizeOption => ContainerState { optimize_option: true, ..st },
        ContainerAttrKind::UnknownAttr => st,
        ContainerAttrKind::LiteralAttr => st,
    }
}

/// The defects one configuration item raises, given what was already set.
pub open spec fn container_item_errors(
    st: ContainerState,
    shape: ContainerShape,
    item: ContainerAttr,
) -> Seq<ResolveError> {
    let loc = item.loc;
    match item.kind {
        ContainerAttrKind::Rename(s) => dup_errs(st.ser_name, loc, Symbol::Rename) + dup_errs(
            st.de_name,
            loc,
            Symbol::Rename,
        ),
        ContainerAttrKind::RenameSerDe(ser, de) => (match ser {
            Some(_) => dup_errs(st.ser_name, loc, Symbol::Rename),
            None => Seq::empty(),
        }) + (match de {
            Some(_) => dup_errs(st.de_name, loc, Symbol::Rename),
            None => Seq::empty(),
        }),
        ContainerAttrKind::RenameAll(s) => match spec_rename_rule(s@) {
            Some(_) => dup_errs(st.rename_all_ser, loc, Symbol::RenameAll) + dup_errs(
                st.rename_all_de,
                loc,
                Symbol::RenameAll,
            ),
            None => seq![
                ResolveError { loc, kind: ResolveErrorKind::UnknownRenameRule(s) },
            ],
        },
        ContainerAttrKind::RenameAllSerDe(ser, de) => (match ser {
            Some(s) => match spec_rename_rule(s@) {
                Some(_) => dup_errs(st.rename_all_ser, loc, Symbol::RenameAll),
                None => seq![
                    ResolveError { loc, kind: ResolveErrorKind::UnknownRenameRule(s) },
                ],
            },
            None => Seq::empty(),
        }) + (match de {
            Some(s) => match spec_rename_rule(s@) {
                Some(_) => dup_errs(st.rename_all_de, loc, Symbol::RenameAll),
                None => seq![
                    ResolveError { loc, kind: ResolveErrorKind::UnknownRenameRule(s) },
                ],
            },
            None => Seq::empty(),
        }),
        ContainerAttrKind::DenyUnknownFields => dup_errs_flag(
            st.deny_unknown,
            loc,
            Symbol::DenyUnknown,
        ),
        ContainerAttrKind::DefaultValue => {
            if shape is StructNamed {
                dup_errs_flag(!(st.default_policy is Required), loc, Symbol::DefaultValue)
            } else {
                seq![ResolveError { loc, kind: ResolveErrorKind::DefaultOnUnnamedShape }]
            }
        },
        ContainerAttrKind::DefaultPath(_) => {
            if shape is StructNamed {
                dup_errs_flag(!(st.default_policy is Required), loc, Symbol::DefaultValue)
            } else {
                seq![ResolveError { loc, kind: ResolveErrorKind::DefaultOnUnnamedShape }]
            }
        },
        ContainerAttrKind::Bound(_) => dup_errs(st.ser_bound, loc, Symbol::Bound) + dup_errs(
            st.de_bound,
            loc,
            Symbol::Bound,
        ),
        ContainerAttrKind::BoundSerDe(ser, de) => (match ser {
            Some(_) => dup_errs(st.ser_bound, loc, Symbol::Bound),
            None => Seq::empty(),
        }) + (match de {
            Some(_) => dup_errs(st.de_bound, loc, Symbol::Bound),
            None => Seq::empty(),
        }),
        ContainerAttrKind::Untagged => {
            if shape is Enum {
                dup_errs(st.untagged, loc, Symbol::Untagged)
            } else {
                seq![ResolveError { loc, kind: ResolveErrorKind::UntaggedNotOnEnum }]
            }
        },
        ContainerAttrKind::Tag(_) => {
            if shape is Enum || shape is StructNamed {
                dup_errs(st.tag, loc, Symbol::Tag)
            } else {
                seq![ResolveError { loc, kind: ResolveErrorKind::TagNotOnEnumOrNamedStruct }]
            }
        },
        ContainerAttrKind::Content(_) => {
            if shape is Enum {
                dup_errs(st.content, loc, Symbol::Content)
            } else {
                seq![ResolveError { loc, kind: ResolveErrorKind::ContentNotOnEnum }]
            }
        },
        ContainerAttrKind::FromType(_) => dup_errs(st.from_type, loc, Symbol::FromType),
        ContainerAttrKind::TryFromType(_) => dup_errs(st.try_from_type, loc, Symbol::TryFromType),
        ContainerAttrKind::Remote(_) => dup_errs(st.remote, loc, Symbol::Remote),
        ContainerAttrKind::FieldIdentifier => dup_errs(
            st.field_identifier,
            loc,
            Symbol::FieldIdentifier,
        ),
        ContainerAttrKind::VariantIdentifier => dup_errs(
            st.variant_identifier,
            loc,
            Symbol::VariantIdentifier,
        ),
        ContainerAttrKind::CrateName(_) => dup_errs(st.crate_name, loc, Symbol::CrateName),
        ContainerAttrKind::OptimizeOption => dup_errs_flag(
            st.optimize_option,
            loc,
            Symbol::OptimizeOption,
        ),
        ContainerAttrKind::UnknownAttr => seq![
            ResolveError { loc, kind: ResolveErrorKind::UnknownAttribute },
        ],
        ContainerAttrKind::LiteralAttr => seq![
            ResolveError { loc, kind: ResolveErrorKind::UnexpectedLiteral },
        ],
    }
}

/// The record after scanning all items, in order.
pub open spec fn container_state_scan(
    shape: ContainerShape,
    name: String,
    items: Seq<ContainerAttr>,
) -> ContainerState
    decreases items.len(),
{
    if items.len() == 0 {
        container_state_init()
    } else {
        container_state_step(
            container_state_scan(shape, name, items.drop_last()),
            shape,
            name,
            items.last(),
        )
    }
}

/// Every defect the scan raises, in order of occurrence.
pub open spec fn container_errors_scan(
    shape: ContainerShape,
    name: String,
    items: Seq<ContainerAttr>,
) -> Seq<ResolveError>
    decreases items.len(),
{
    if items.len() == 0 {
        Seq::empty()
    } else {
        container_errors_scan(shape, name, items.drop_last()) + container_item_errors(
            container_state_scan(shape, name, items.drop_last()),
            shape,
            items.last(),
        )
    }
}

/// The tag style the scanned record resolves to.
pub open spec fn decide_tag(st: ContainerState) -> TagType {
    match st.untagged {
        Some(_) => TagType::Untagged,
        None => match st.tag {
            Some((_, t)) => match st.content {
                Some((_, c)) => TagType::Adjacent { tag: t, content: c },
                None => TagType::Internal { tag: t },
            },
            None => TagType::External,
        },
    }
}

/// The defects the tag-style combination raises.
pub open spec fn decide_tag_errors(st: ContainerState) -> Seq<ResolveError> {
    match st.untagged {
        Some(l) => if st.tag is Some || st.content is Some {
            seq![ResolveError { loc: l, kind: ResolveErrorKind::UntaggedWithTag }]
        } else {
            Seq::empty()
        },
        None => match st.tag {
            Some(_) => Seq::empty(),
            None => match st.content {
                Some((l, _)) => seq![
                    ResolveError { loc: l, kind: ResolveErrorKind::ContentWithoutTag },
                ],
                None => Seq::empty(),
            },
        },
    }
}

/// The identifier role the scanned record resolves to.
pub open spec fn decide_identifier(st: ContainerState) -> Identifier {
    if st.field_identifier is Some && st.variant_identifier is Some {
        Identifier::No
    } else if st.field_identifier is Some {
        Identifier::Field
    } else if st.variant_identifier is Some {
        Identifier::Variant
    } else {
        Identifier::No
    }
}

pub open spec fn decide_identifier_errors(st: ContainerState) -> Seq<ResolveError> {
    match st.variant_identifier {
        Some(l) => if st.field_identifier is Some {
            seq![ResolveError { loc: l, kind: ResolveErrorKind::BothIdentifiers }]
        } else {
            Seq::empty()
        },
        None => Seq::empty(),
    }
}

/// The container-level codec plan a declaration resolves to.
#[derive(Debug, Clone, PartialEq, Eq)]
pub struct Container {
    pub ser_name: Option<String>,
    pub de_name: Option<String>,
    pub deny_unknown_fields: bool,
    pub default_policy: DefaultPolicy,
    pub rename_all_ser_rule: RenameRule,
    pub rename_all_de_rule: RenameRule,
    pub ser_bound: Option<String>,
    pub de_bound: Option<String>,
    pub tag: TagType,
    pub type_from: Option<String>,
    pub type_try_from: Option<String>,
    pub remote: Option<String>,
    pub crate_name: Option<String>,
    pub identifier: Identifier,
    pub optimize_option: bool,
}

/// The plan the scanned record stands for.
pub open spec fn container_of_state(st: ContainerState) -> Container {
    Container {
        ser_name: st.ser_name,
        de_name: st.de_name,
        deny_unknown_fields: st.deny_unknown,
        default_policy: st.default_policy,
        rename_all_ser_rule: match st.rename_all_ser {
            Some(r) => r,
            None => RenameRule::Identity,
        },
        rename_all_de_rule: match st.rename_all_de {
            Some(r) => r,
            None => RenameRule::Identity,
        },
        ser_bound: st.ser_bound,
        de_bound: st.de_bound,
        tag: decide_tag(st),
        type_from: st.from_type,
        type_try_from: st.try_from_type,
        remote: st.remote,
        crate_name: st.crate_name,
        identifier: decide_identifier(st),
        optimize_option: st.optimize_option,
    }
}

/// Copy an optional string value out of a borrowed declaration.
fn clone_opt(o: &Option<String>) -> (r: Option<String>)
    ensures
        r == *o,
{
    match o {
        Some(s) => Some(s.clone()),
        None => None,
    }
}

} // verus!

verus! {

/// The working slots of a container resolution, one per concern.
struct ContainerSlots {
    en_name: Attr<String>,
    de_name: Attr<String>,
    deny_unknown: BoolAttr,
    default_policy: Attr<DefaultPolicy>,
    rename_all_ser: Attr<RenameRule>,
    rename_all_de: Attr<RenameRule>,
    ser_bound: Attr<String>,
    de_bound: Attr<String>,
    untagged: Attr<()>,
    internal_tag: Attr<String>,
    content: Attr<String>,
    type_from: Attr<String>,
    type_try_from: Attr<String>,
    remote: Attr<String>,
    field_identifier: Attr<()>,
    variant_identifier: Attr<()>,
    crate_name: Attr<String>,
    optimize_option: BoolAttr,
}

/// Each slot carries its own concern word.
spec fn container_slots_wf(s: &ContainerSlots) -> bool {
    &&& s.en_name.spec_name() == Symbol::Rename
    &&& s.de_name.spec_name() == Symbol::Rename
    &&& s.deny_unknown.spec_name() == Symbol::DenyUnknown
    &&& s.default_policy.spec_name() == Symbol::DefaultValue
    &&& (s.default_policy.spec_value() matches Some(p) ==> !(p is Required))
    &&& s.rename_all_ser.spec_name() == Symbol::RenameAll
    &&& s.rename_all_de.spec_name() == Symbol::RenameAll
    &&& s.ser_bound.spec_name() == Symbol::Bound
    &&& s.de_bound.spec_name() == Symbol::Bound
    &&& s.untagged.spec_name() == Symbol::Untagged
    &&& s.internal_tag.spec_name() == Symbol::Tag
    &&& s.content.spec_name() == Symbol::Content
    &&& s.type_from.spec_name() == Symbol::FromType
    &&& s.type_try_from.spec_name() == Symbol::TryFromType
    &&& s.remote.spec_name() == Symbol::Remote
    &&& s.field_identifier.spec_name() == Symbol::FieldIdentifier
    &&& s.variant_identifier.spec_name() == Symbol::VariantIdentifier
    &&& s.crate_name.spec_name() == Symbol::CrateName
    &&& s.optimize_option.spec_name() == Symbol::OptimizeOption
}

/// The per-concern record the slots currently stand for.
spec fn state_of_slots(s: &ContainerSlots) -> ContainerState {
    ContainerState {
        ser_name: s.en_name.spec_value(),
        de_name: s.de_name.spec_value(),
        deny_unknown: s.deny_unknown.spec_set(),
        default_policy: match s.default_policy.spec_value() {
            Some(p) => p,
            None => DefaultPolicy::Required,
        },
        rename_all_ser: s.rename_all_ser.spec_value(),
        rename_all_de: s.rename_all_de.spec_value(),
        ser_bound: s.ser_bound.spec_value(),
        de_bound: s.de_bound.spec_value(),
        untagged: match s.untagged.spec_value() {
            Some(_) => Some(s.untagged.spec_loc()),
            None => None,
        },
        tag: match s.internal_tag.spec_value() {
            Some(t) => Some((s.internal_tag.spec_loc(), t)),
            None => None,
        },
        content: match s.content.spec_value() {
            Some(c) => Some((s.content.spec_loc(), c)),
            None => None,
        },
        from_type: s.type_from.spec_value(),
        try_from_type: s.type_try_from.spec_value(),
        remote: s.remote.spec_value(),
        field_identifier: match s.field_identifier.spec_value() {
            Some(_) => Some(s.field_identifier.spec_loc()),
            None => None,
        },
        variant_identifier: match s.variant_identifier.spec_value() {
            Some(_) => Some(s.variant_identifier.spec_loc()),
            None => None,
        },
        crate_name: s.crate_name.spec_value(),
        optimize_option: s.optimize_option.spec_set(),
    }
}

fn container_slots_new() -> (r: ContainerSlots)
    ensures
        container_slots_wf(&r),
        state_of_slots(&r) == container_state_init(),
{
    ContainerSlots {
        en_name: Attr::none(Symbol::Rename),
        de_name: Attr::none(Symbol::Rename),
        deny_unknown: BoolAttr::none(Symbol::DenyUnknown),
        default_policy: Attr::none(Symbol::DefaultValue),
        rename_all_ser: Attr::none(Symbol::RenameAll),
        rename_all_de: Attr::none(Symbol::RenameAll),
        ser_bound: Attr::none(Symbol::Bound),
        de_bound: Attr::none(Symbol::Bound),
        untagged: Attr::none(Symbol::Untagged),
        internal_tag: Attr::none(Symbol::Tag),
        content: Attr::none(Symbol::Content),
        type_from: Attr::none(Symbol::FromType),
        type_try_from: Attr::none(Symbol::TryFromType),
        remote: Attr::none(Symbol::Remote),
        field_identifier: Attr::none(Symbol::FieldIdentifier),
        variant_identifier: Attr::none(Symbol::VariantIdentifier),
        crate_name: Attr::none(Symbol::CrateName),
        optimize_option: BoolAttr::none(Symbol::OptimizeOption),
    }
}

/// Apply one configuration item to the slots: exactly the specification
/// step, raising exactly the specification defects.
#[verifier::rlimit(100)]
#[verifier::spinoff_prover]
fn container_apply_item(
    slots: &mut ContainerSlots,
    cx: &mut Ctxt,
    shape: ContainerShape,
    name: &String,
    item: &ContainerAttr,
)
    requires
        container_slots_wf(old(slots)),
    ensures
        container_slots_wf(final(slots)),
        state_of_slots(final(slots)) == container_state_step(
            state_of_slots(old(slots)),
            shape,
            *name,
            *item,
        ),
        final(cx).spec_errors() == old(cx).spec_errors() + container_item_errors(
            state_of_slots(old(slots)),
            shape,
            *item,
        ),
{
    match &item.kind {
        ContainerAttrKind::Rename(s) => {
            slots.en_name.set(cx, item.loc, s.clone());
            slots.de_name.set(cx, item.loc, s.clone());
        },
        ContainerAttrKind::RenameSerDe(ser, de) => {
            slots.en_name.set_opt(cx, item.loc, clone_opt(ser));
            slots.de_name.set_opt(cx, item.loc, clone_opt(de));
        },
        ContainerAttrKind::RenameAll(s) => {
            match RenameRule::from_str(s.as_str()) {
                Some(rule) => {
                    slots.rename_all_ser.set(cx, item.loc, rule);
                    slots.rename_all_de.set(cx, item.loc, rule);
                },
                None => {
                    cx.error(item.loc, ResolveErrorKind::UnknownRenameRule(s.clone()));
                },
            }
        },
        ContainerAttrKind::RenameAllSerDe(ser, de) => {
            match ser {
                Some(s) => {
                    match RenameRule::from_str(s.as_str()) {
                        Some(rule) => {
                            slots.rename_all_ser.set(cx, item.loc, rule);
                        },
                        None => {
                            cx.error(item.loc, ResolveErrorKind::UnknownRenameRule(s.clone()));
                        },
                    }
                },
                None => {},
            }
            match de {
                Some(s) => {
                    match RenameRule::from_str(s.as_str()) {
                        Some(rule) => {
                            slots.rename_all_de.set(cx, item.loc, rule);
                        },
                        None => {
                            cx.error(item.loc, ResolveErrorKind::UnknownRenameRule(s.clone()));
                        },
                    }
                },
                None => {},
            }
        },
        ContainerAttrKind::DenyUnknownFields => {
            slots.deny_unknown.set_true(cx, item.loc);
        },
        ContainerAttrKind::DefaultValue => {
            match shape {
                ContainerShape::StructNamed => {
                    slots.default_policy.set(cx, item.loc, DefaultPolicy::ZeroValue);
                },
                _ => {
                    cx.error(item.loc, ResolveErrorKind::DefaultOnUnnamedShape);
                },
            }
        },
        ContainerAttrKind::DefaultPath(p) => {
            match shape {
                ContainerShape::StructNamed => {
                    slots.default_policy.set(cx, item.loc, DefaultPolicy::ComputedBy(p.clone()));
                },
                _ => {
                    cx.error(item.loc, ResolveErrorKind::DefaultOnUnnamedShape);
                },
            }
        },
        ContainerAttrKind::Bound(s) => {
            slots.ser_bound.set(cx, item.loc, s.clone());
            slots.de_bound.set(cx, item.loc, s.clone());
        },
        ContainerAttrKind::BoundSerDe(ser, de) => {
            slots.ser_bound.set_opt(cx, item.loc, clone_opt(ser));
            slots.de_bound.set_opt(cx, item.loc, clone_opt(de));
        },
        ContainerAttrKind::Untagged => {
            match shape {
                ContainerShape::Enum => {
                    slots.untagged.set(cx, item.loc, ());
                },
                _ => {
                    cx.error(item.loc, ResolveErrorKind::UntaggedNotOnEnum);
                },
            }
        },
        ContainerAttrKind::Tag(s) => {
            match shape {
                ContainerShape::Enum | ContainerShape::StructNamed => {
                    slots.internal_tag.set(cx, item.loc, s.clone());
                },
                _ => {
                    cx.error(item.loc, ResolveErrorKind::TagNotOnEnumOrNamedStruct);
                },
            }
        },
        ContainerAttrKind::Content(s) => {
            match shape {
                ContainerShape::Enum => {
                    slots.content.set(cx, item.loc, s.clone());
                },
                _ => {
                    cx.error(item.loc, ResolveErrorKind::ContentNotOnEnum);
                },
            }
        },
        ContainerAttrKind::FromType(s) => {
            slots.type_from.set(cx, item.loc, s.clone());
        },
        ContainerAttrKind::TryFromType(s) => {
            slots.type_try_from.set(cx, item.loc, s.clone());
        },
        ContainerAttrKind::Remote(s) => {
            let v = if str_eq(s.as_str(), "Self") {
                name.clone()
            } else {
                s.clone()
            };
            slots.remote.set(cx, item.loc, v);
        },
        ContainerAttrKind::FieldIdentifier => {
            slots.field_identifier.set(cx, item.loc, ());
        },
        ContainerAttrKind::VariantIdentifier => {
            slots.variant_identifier.set(cx, item.loc, ());
        },
        ContainerAttrKind::CrateName(s) => {
            slots.crate_name.set(cx, item.loc, s.clone());
        },
        ContainerAttrKind::OptimizeOption => {
            slots.optimize_option.set_true(cx, item.loc);
        },
        ContainerAttrKind::UnknownAttr => {
            cx.error(item.loc, ResolveErrorKind::UnknownAttribute);
        },
        ContainerAttrKind::LiteralAttr => {
            cx.error(item.loc, ResolveErrorKind::UnexpectedLiteral);
        },
    }
    proof {
        assert(cx.spec_errors() =~= old(cx).spec_errors() + container_item_errors(
            state_of_slots(old(slots)),
            shape,
            *item,
        ));
        assert(state_of_slots(slots) =~= container_state_step(
            state_of_slots(old(slots)),
            shape,
            *name,
            *item,
        ));
    }
}

impl Container {
    /// Resolve a container declaration into its codec plan, collecting
    /// every defect into `cx`.  The plan and the defect list are exactly
    /// those of the specification scan: nothing is lost, and resolution
    /// never stops at the first defect.
    #[verifier::loop_isolation(false)]
    #[verifier::rlimit(100)]
    pub fn from_decl(cx: &mut Ctxt, decl: &ContainerDecl) -> (r: Container)
        ensures
            ({
                let st = container_state_scan(decl.shape, decl.name, decl.attrs@);
                &&& r == container_of_state(st)
                &&& final(cx).spec_errors() == old(cx).spec_errors() + container_errors_scan(
                    decl.shape,
                    decl.name,
                    decl.attrs@,
                ) + decide_tag_errors(st) + decide_identifier_errors(st)
            }),
    {
        let mut slots = container_slots_new();
        let n = decl.attrs.len();
        let mut i: usize = 0;
        while i < n
            invariant
                0 <= i <= n,
                container_slots_wf(&slots),
                state_of_slots(&slots) == container_state_scan(
                    decl.shape,
                    decl.name,
                    decl.attrs@.take(i as int),
                ),
                cx.spec_errors() == old(cx).spec_errors() + container_errors_scan(
                    decl.shape,
                    decl.name,
                    decl.attrs@.take(i as int),
                ),
            decreases n - i,
        {
            let item = &decl.attrs[i];
            proof {
                assert(decl.attrs@.take(i + 1).drop_last() =~= decl.attrs@.take(i as int));
                assert(decl.attrs@.take(i + 1).last() == decl.attrs@[i as int]);
            }
            container_apply_item(&mut slots, cx, decl.shape, &decl.name, item);
            i = i + 1;
        }
        proof {
            assert(decl.attrs@.take(n as int) =~= decl.attrs@);
        }
        let ghost st = container_state_scan(decl.shape, decl.name, decl.attrs@);
        let unt_loc = slots.untagged.loc();
        let unt = slots.untagged.get();
        let tag_loc = slots.internal_tag.loc();
        let tag_val = slots.internal_tag.get();
        let content_loc = slots.content.loc();
        let content_val = slots.content.get();
        let tag = match unt {
            Some(_) => {
                if tag_val.is_some() || content_val.is_some() {
                    cx.error(unt_loc, ResolveErrorKind::UntaggedWithTag);
                }
                TagType::Untagged
            },
            None => match tag_val {
                Some(t) => match content_val {
                    Some(c) => TagType::Adjacent { tag: t, content: c },
                    None => TagType::Internal { tag: t },
                },
                None => match content_val {
                    Some(_) => {
                        cx.error(content_loc, ResolveErrorKind::ContentWithoutTag);
                        TagType::External
                    },
                    None => TagType::External,
                },
            },
        };
        let vi_loc = slots.variant_identifier.loc();
        let fi = slots.field_identifier.get();
        let vi = slots.variant_identifier.get();
        let identifier = if fi.is_some() && vi.is_some() {
            cx.error(vi_loc, ResolveErrorKind::BothIdentifiers);
            Identifier::No
        } else if fi.is_some() {
            Identifier::Field
        } else if vi.is_some() {
            Identifier::Variant
        } else {
            Identifier::No
        };
        Container {
            ser_name: slots.en_name.get(),
            de_name: slots.de_name.get(),
            deny_unknown_fields: slots.deny_unknown.get(),
            default_policy: match slots.default_policy.get() {
                Some(p) => p,
                None => DefaultPolicy::Required,
            },
            rename_all_ser_rule: match slots.rename_all_ser.get() {
                Some(r) => r,
                None => RenameRule::Identity,
            },
            rename_all_de_rule: match slots.rename_all_de.get() {
                Some(r) => r,
                None => RenameRule::Identity,
            },
            ser_bound: slots.ser_bound.get(),
            de_bound: slots.de_bound.get(),
            tag,
            type_from: slots.type_from.get(),
            type_try_from: slots.type_try_from.get(),
            remote: slots.remote.get(),
            crate_name: slots.crate_name.get(),
            identifier,
            optimize_option: slots.optimize_option.get(),
        }
    }
}

} // verus!



verus! {

/// The shape of one enum variant's payload.
#[derive(Debug, Clone, Copy, PartialEq, Eq, Structural)]
pub enum FieldsShape {
    Unit,
    Newtype,
    Tuple,
    Named,
}

/// A path a custom conversion routine is reached by: either a function
/// named directly, or the `serialize`/`deserialize` member of a named
/// module.
#[derive(Debug, Clone, PartialEq, Eq)]
pub enum CodecPath {
    Function(String),
    ModuleSerialize(String),
    ModuleDeserialize(String),
}

/// One variant-level configuration item.
#[derive(Debug, Clone, PartialEq, Eq)]
pub enum VariantAttrKind {
    /// `rename = "..."`: the serialize name, and the first deserialize
    /// name and alias.
    Rename(String),
    /// `rename(serialize = ..., deserialize = ...)`, with any number of
    /// deserialize names.
    RenameSerDe(Option<String>, Vec<String>),
    /// `alias = "..."`.
    Alias(String),
    RenameAll(String),
    RenameAllSerDe(Option<String>, Option<String>),
    Skip,
    SkipDeserializing,
    SkipSerializing,
    Other,
    Bound(String),
    BoundSerDe(Option<String>, Option<String>),
    /// `with = "module"`: both directions through one module.
    WithPath(String),
    SerializeWith(String),
    DeserializeWith(String),
    Borrow,
    UnknownAttr,
    LiteralAttr,
}

#[derive(Debug, Clone, PartialEq, Eq)]
pub struct VariantAttr {
    pub loc: usize,
    pub kind: VariantAttrKind,
}

/// A whole variant declaration.
#[derive(Debug, Clone, PartialEq, Eq)]
pub struct VariantDecl {
    pub name: String,
    pub fields: FieldsShape,
    pub attrs: Vec<VariantAttr>,
}

/// The per-concern record of a variant scan (aliases are folded
/// separately, since nothing else depends on them).
#[verifier::ext_equal]
pub struct VariantState {
    pub ser_name: Option<String>,
    pub de_name: Option<String>,
    pub rename_all_ser: Option<RenameRule>,
    pub rename_all_de: Option<RenameRule>,
    pub skip_serializing: bool,
    pub skip_deserializing: bool,
    pub other: bool,
    pub ser_bound: Option<String>,
    pub de_bound: Option<String>,
    pub serialize_with: Option<CodecPath>,
    pub deserialize_with: Option<CodecPath>,
    pub borrow: bool,
}

pub open spec fn variant_state_init() -> VariantState {
    VariantState {
        ser_name: None,
        de_name: None,
        rename_all_ser: None,
        rename_all_de: None,
        skip_serializing: false,
        skip_deserializing: false,
        other: false,
        ser_bound: None,
        de_bound: None,
        serialize_with: None,
        deserialize_with: None,
        borrow: false,
    }
}

/// How one item advances the variant record.
pub open spec fn variant_state_step(
    st: VariantState,
    fields: FieldsShape,
    item: VariantAttr,
) -> VariantState {
    match item.kind {
        VariantAttrKind::Rename(s) => VariantState {
            ser_name: keep_first(st.ser_name, s),
            de_name: keep_first(st.de_name, s),
            ..st
        },
        VariantAttrKind::RenameSerDe(ser, de) => VariantState {
            ser_name: match ser {
                Some(s) => keep_first(st.ser_name, s),
                None => st.ser_name,
            },
            de_name: if de.len() > 0 {
                keep_first(st.de_name, de[0])
            } else {
                st.de_name
            },
            ..st
        },
        VariantAttrKind::Alias(_) => st,
        VariantAttrKind::RenameAll(s) => match spec_rename_rule(s@) {
            Some(rule) => VariantState {
                rename_all_ser: keep_first(st.rename_all_ser, rule),
                rename_all_de: keep_first(st.rename_all_de, rule),
                ..st
            },
            None => st,
        },
        VariantAttrKind::RenameAllSerDe(ser, de) => {
            let st1 = match ser {
                Some(s) => match spec_rename_rule(s@) {
                    Some(rule) => VariantState {
                        rename_all_ser: keep_first(st.rename_all_ser, rule),
                        ..st
                    },
                    None => st,
                },
                None => st,
            };
            match de {
                Some(s) => match spec_rename_rule(s@) {
                    Some(rule) => VariantState {
                        rename_all_de: keep_first(st1.rename_all_de, rule),
                        ..st1
                    },
                    None => st1,
                },
                None => st1,
            }
        },
        VariantAttrKind::Skip => VariantState {
            skip_serializing: true,
            skip_deserializing: true,
            ..st
        },
        VariantAttrKind::SkipDeserializing => VariantState { skip_deserializing: true, ..st },
        VariantAttrKind::SkipSerializing => VariantState { skip_serializing: true, ..st },
        VariantAttrKind::Other => VariantState { other: true, ..st },
        VariantAttrKind::Bound(s) => VariantState {
            ser_bound: keep_first(st.ser_bound, s),
            de_bound: keep_first(st.de_bound, s),
            ..st
        },
        VariantAttrKind::BoundSerDe(ser, de) => VariantState {
            ser_bound: match ser {
                Some(s) => keep_first(st.ser_bound, s),
                None => st.ser_bound,
            },
            de_bound: match de {
                Some(s) => keep_first(st.de_bound, s),
                None => st.de_bound,
            },
            ..st
        },
        VariantAttrKind::WithPath(m) => VariantState {
            serialize_with: keep_first(st.serialize_with, CodecPath::ModuleSerialize(m)),
            deserialize_with: keep_first(st.deserialize_with, CodecPath::ModuleDeserialize(m)),
            ..st
        },
        VariantAttrKind::SerializeWith(p) => VariantState {
            serialize_with: keep_first(st.serialize_with, CodecPath::Function(p)),
            ..st
        },
        VariantAttrKind::DeserializeWith(p) => VariantState {
            deserialize_with: keep_first(st.deserialize_with, CodecPath::Function(p)),
            ..st
        },
        VariantAttrKind::Borrow => {
            if fields is Newtype {
                VariantState { borrow: true, ..st }
            } else {
                st
            }
        },
        VariantAttrKind::UnknownAttr => st,
        VariantAttrKind::LiteralAttr => st,
    }
}

/// The defects one variant item raises.
pub open spec fn variant_item_errors(
    st: VariantState,
    fields: FieldsShape,
    item: VariantAttr,
) -> Seq<ResolveError> {
    let loc = item.loc;
    match item.kind {
        VariantAttrKind::Rename(_) => dup_errs(st.ser_name, loc, Symbol::Rename),
        VariantAttrKind::RenameSerDe(ser, _) => match ser {
            Some(_) => dup_errs(st.ser_name, loc, Symbol::Rename),
            None => Seq::empty(),
        },
        VariantAttrKind::Alias(_) => Seq::empty(),
        VariantAttrKind::RenameAll(s) => match spec_rename_rule(s@) {
            Some(_) => dup_errs(st.rename_all_ser, loc, Symbol::RenameAll) + dup_errs(
                st.rename_all_de,
                loc,
                Symbol::RenameAll,
            ),
            None => seq![
                ResolveError { loc, kind: ResolveErrorKind::UnknownRenameRule(s) },
            ],
        },
        VariantAttrKind::RenameAllSerDe(ser, de) => (match ser {
            Some(s) => match spec_rename_rule(s@) {
                Some(_) => dup_errs(st.rename_all_ser, loc, Symbol::RenameAll),
                None => seq![
                    ResolveError { loc, kind: ResolveErrorKind::UnknownRenameRule(s) },
                ],
            },
            None => Seq::empty(),
        }) + (match de {
            Some(s) => match spec_rename_rule(s@) {
                Some(_) => dup_errs(st.rename_all_de, loc, Symbol::RenameAll),
                None => seq![
                    ResolveError { loc, kind: ResolveErrorKind::UnknownRenameRule(s) },
                ],
            },
            None => Seq::empty(),
        }),
        VariantAttrKind::Skip => dup_errs_flag(st.skip_serializing, loc, Symbol::SkipSerializing)
            + dup_errs_flag(st.skip_deserializing, loc, Symbol::SkipDeserializing),
        VariantAttrKind::SkipDeserializing => dup_errs_flag(
            st.skip_deserializing,
            loc,
            Symbol::SkipDeserializing,
        ),
        VariantAttrKind::SkipSerializing => dup_errs_flag(
            st.skip_serializing,
            loc,
            Symbol::SkipSerializing,
        ),
        VariantAttrKind::Other => dup_errs_flag(st.other, loc, Symbol::OtherVariant),
        VariantAttrKind::Bound(_) => dup_errs(st.ser_bound, loc, Symbol::Bound) + dup_errs(
            st.de_bound,
            loc,
            Symbol::Bound,
        ),
        VariantAttrKind::BoundSerDe(ser, de) => (match ser {
            Some(_) => dup_errs(st.ser_bound, loc, Symbol::Bound),
            None => Seq::empty(),
        }) + (match de {
            Some(_) => dup_errs(st.de_bound, loc, Symbol::Bound),
            None => Seq::empty(),
        }),
        VariantAttrKind::WithPath(_) => dup_errs(st.serialize_with, loc, Symbol::SerializeWith)
            + dup_errs(st.deserialize_with, loc, Symbol::DeserializeWith),
        VariantAttrKind::SerializeWith(_) => dup_errs(
            st.serialize_with,
            loc,
            Symbol::SerializeWith,
        ),
        VariantAttrKind::DeserializeWith(_) => dup_errs(
            st.deserialize_with,
            loc,
            Symbol::DeserializeWith,
        ),
        VariantAttrKind::Borrow => {
            if fields is Newtype {
                dup_errs_flag(st.borrow, loc, Symbol::Borrow)
            } else {
                seq![ResolveError { loc, kind: ResolveErrorKind::BorrowNotOnNewtype }]
            }
        },
        VariantAttrKind::UnknownAttr => seq![
            ResolveError { loc, kind: ResolveErrorKind::UnknownAttribute },
        ],
        VariantAttrKind::LiteralAttr => seq![
            ResolveError { loc, kind: ResolveErrorKind::UnexpectedLiteral },
        ],
    }
}

pub open spec fn variant_state_scan(fields: FieldsShape, items: Seq<VariantAttr>) -> VariantState
    decreases items.len(),
{
    if items.len() == 0 {
        variant_state_init()
    } else {
        variant_state_step(
            variant_state_scan(fields, items.drop_last()),
            fields,
            items.last(),
        )
    }
}

pub open spec fn variant_errors_scan(
    fields: FieldsShape,
    items: Seq<VariantAttr>,
) -> Seq<ResolveError>
    decreases items.len(),
{
    if items.len() == 0 {
        Seq::empty()
    } else {
        variant_errors_scan(fields, items.drop_last()) + variant_item_errors(
            variant_state_scan(fields, items.drop_last()),
            fields,
            items.last(),
        )
    }
}

/// The deserialize aliases an item contributes, in order.
pub open spec fn variant_item_aliases(item: VariantAttr) -> Seq<String> {
    match item.kind {
        VariantAttrKind::Rename(s) => seq![s],
        VariantAttrKind::RenameSerDe(_, de) => de@,
        VariantAttrKind::Alias(s) => seq![s],
        _ => Seq::empty(),
    }
}

pub open spec fn variant_aliases_scan(items: Seq<VariantAttr>) -> Seq<String>
    decreases items.len(),
{
    if items.len() == 0 {
        Seq::empty()
    } else {
        variant_aliases_scan(items.drop_last()) + variant_item_aliases(items.last())
    }
}

} // verus!

verus! {

/// The working slots of a variant resolution.
struct VariantSlots {
    ser_name: Attr<String>,
    de_name: Attr<String>,
    de_aliases: VecAttr<String>,
    rename_all_ser: Attr<RenameRule>,
    rename_all_de: Attr<RenameRule>,
    skip_serializing: BoolAttr,
    skip_deserializing: BoolAttr,
    other: BoolAttr,
    ser_bound: Attr<String>,
    de_bound: Attr<String>,
    serialize_with: Attr<CodecPath>,
    deserialize_with: Attr<CodecPath>,
    borrow: BoolAttr,
}

spec fn variant_slots_wf(s: &VariantSlots) -> bool {
    &&& s.ser_name.spec_name() == Symbol::Rename
    &&& s.de_name.spec_name() == Symbol::Rename
    &&& s.de_aliases.spec_name() == Symbol::Alias
    &&& s.rename_all_ser.spec_name() == Symbol::RenameAll
    &&& s.rename_all_de.spec_name() == Symbol::RenameAll
    &&& s.skip_serializing.spec_name() == Symbol::SkipSerializing
    &&& s.skip_deserializing.spec_name() == Symbol::SkipDeserializing
    &&& s.other.spec_name() == Symbol::OtherVariant
    &&& s.ser_bound.spec_name() == Symbol::Bound
    &&& s.de_bound.spec_name() == Symbol::Bound
    &&& s.serialize_with.spec_name() == Symbol::SerializeWith
    &&& s.deserialize_with.spec_name() == Symbol::DeserializeWith
    &&& s.borrow.spec_name() == Symbol::Borrow
}

spec fn vstate_of_slots(s: &VariantSlots) -> VariantState {
    VariantState {
        ser_name: s.ser_name.spec_value(),
        de_name: s.de_name.spec_value(),
        rename_all_ser: s.rename_all_ser.spec_value(),
        rename_all_de: s.rename_all_de.spec_value(),
        skip_serializing: s.skip_serializing.spec_set(),
        skip_deserializing: s.skip_deserializing.spec_set(),
        other: s.other.spec_set(),
        ser_bound: s.ser_bound.spec_value(),
        de_bound: s.de_bound.spec_value(),
        serialize_with: s.serialize_with.spec_value(),
        deserialize_with: s.deserialize_with.spec_value(),
        borrow: s.borrow.spec_set(),
    }
}

fn variant_slots_new() -> (r: VariantSlots)
    ensures
        variant_slots_wf(&r),
        vstate_of_slots(&r) == variant_state_init(),
        r.de_aliases.spec_values() == Seq::<String>::empty(),
{
    VariantSlots {
        ser_name: Attr::none(Symbol::Rename),
        de_name: Attr::none(Symbol::Rename),
        de_aliases: VecAttr::none(Symbol::Alias),
        rename_all_ser: Attr::none(Symbol::RenameAll),
        rename_all_de: Attr::none(Symbol::RenameAll),
        skip_serializing: BoolAttr::none(Symbol::SkipSerializing),
        skip_deserializing: BoolAttr::none(Symbol::SkipDeserializing),
        other: BoolAttr::none(Symbol::OtherVariant),
        ser_bound: Attr::none(Symbol::Bound),
        de_bound: Attr::none(Symbol::Bound),
        serialize_with: Attr::none(Symbol::SerializeWith),
        deserialize_with: Attr::none(Symbol::DeserializeWith),
        borrow: BoolAttr::none(Symbol::Borrow),
    }
}

/// Apply one variant configuration item: exactly the specification step,
/// raising exactly the specification defects and aliases.
#[verifier::loop_isolation(false)]
#[verifier::rlimit(100)]
#[verifier::spinoff_prover]
fn variant_apply_item(
    slots: &mut VariantSlots,
    cx: &mut Ctxt,
    fields: FieldsShape,
    item: &VariantAttr,
)
    requires
        variant_slots_wf(old(slots)),
    ensures
        variant_slots_wf(final(slots)),
        vstate_of_slots(final(slots)) == variant_state_step(
            vstate_of_slots(old(slots)),
            fields,
            *item,
        ),
        final(cx).spec_errors() == old(cx).spec_errors() + variant_item_errors(
            vstate_of_slots(old(slots)),
            fields,
            *item,
        ),
        final(slots).de_aliases.spec_values() == old(slots).de_aliases.spec_values()
            + variant_item_aliases(*item),
{
    match &item.kind {
        VariantAttrKind::Rename(s) => {
            slots.ser_name.set(cx, item.loc, s.clone());
            slots.de_name.set_if_none(item.loc, s.clone());
            slots.de_aliases.insert(item.loc, s.clone());
        },
        VariantAttrKind::RenameSerDe(ser, de) => {
            slots.ser_name.set_opt(cx, item.loc, clone_opt(ser));
            let ghost mid = *slots;
            let ghost cx_mid = *cx;
            let n = de.len();
            let mut j: usize = 0;
            while j < n
                invariant
                    0 <= j <= n,
                    n == de@.len(),
                    *cx == cx_mid,
                    slots.ser_name == mid.ser_name,
                    slots.rename_all_ser == mid.rename_all_ser,
                    slots.rename_all_de == mid.rename_all_de,
                    slots.skip_serializing == mid.skip_serializing,
                    slots.skip_deserializing == mid.skip_deserializing,
                    slots.other == mid.other,
                    slots.ser_bound == mid.ser_bound,
                    slots.de_bound == mid.de_bound,
                    slots.serialize_with == mid.serialize_with,
                    slots.deserialize_with == mid.deserialize_with,
                    slots.borrow == mid.borrow,
                    slots.de_aliases.spec_name() == Symbol::Alias,
                    slots.de_name.spec_name() == Symbol::Rename,
                    slots.de_aliases.spec_values() == old(slots).de_aliases.spec_values()
                        + de@.take(j as int),
                    slots.de_name.spec_value() == (if old(slots).de_name.spec_value() is Some {
                        old(slots).de_name.spec_value()
                    } else if j > 0 {
                        Some(de@[0])
                    } else {
                        None
                    }),
                decreases n - j,
            {
                let s = &de[j];
                slots.de_name.set_if_none(item.loc, s.clone());
                slots.de_aliases.insert(item.loc, s.clone());
                proof {
                    assert(de@.take(j as int).push(de@[j as int]) =~= de@.take(j + 1));
                }
                j = j + 1;
            }
            proof {
                assert(de@.take(n as int) =~= de@);
            }
        },
        VariantAttrKind::Alias(s) => {
            slots.de_aliases.insert(item.loc, s.clone());
        },
        VariantAttrKind::RenameAll(s) => {
            match RenameRule::from_str(s.as_str()) {
                Some(rule) => {
                    slots.rename_all_ser.set(cx, item.loc, rule);
                    slots.rename_all_de.set(cx, item.loc, rule);
                },
                None => {
                    cx.error(item.loc, ResolveErrorKind::UnknownRenameRule(s.clone()));
                },
            }
        },
        VariantAttrKind::RenameAllSerDe(ser, de) => {
            match ser {
                Some(s) => {
                    match RenameRule::from_str(s.as_str()) {
                        Some(rule) => {
                            slots.rename_all_ser.set(cx, item.loc, rule);
                        },
                        None => {
                            cx.error(item.loc, ResolveErrorKind::UnknownRenameRule(s.clone()));
                        },
                    }
                },
                None => {},
            }
            match de {
                Some(s) => {
                    match RenameRule::from_str(s.as_str()) {
                        Some(rule) => {
                            slots.rename_all_de.set(cx, item.loc, rule);
                        },
                        None => {
                            cx.error(item.loc, ResolveErrorKind::UnknownRenameRule(s.clone()));
                        },
                    }
                },
                None => {},
            }
        },
        VariantAttrKind::Skip => {
            slots.skip_serializing.set_true(cx, item.loc);
            slots.skip_deserializing.set_true(cx, item.loc);
        },
        VariantAttrKind::SkipDeserializing => {
            slots.skip_deserializing.set_true(cx, item.loc);
        },
        VariantAttrKind::SkipSerializing => {
            slots.skip_serializing.set_true(cx, item.loc);
        },
        VariantAttrKind::Other => {
            slots.other.set_true(cx, item.loc);
        },
        VariantAttrKind::Bound(s) => {
            slots.ser_bound.set(cx, item.loc, s.clone());
            slots.de_bound.set(cx, item.loc, s.clone());
        },
        VariantAttrKind::BoundSerDe(ser, de) => {
            slots.ser_bound.set_opt(cx, item.loc, clone_opt(ser));
            slots.de_bound.set_opt(cx, item.loc, clone_opt(de));
        },
        VariantAttrKind::WithPath(m) => {
            slots.serialize_with.set(cx, item.loc, CodecPath::ModuleSerialize(m.clone()));
            slots.deserialize_with.set(cx, item.loc, CodecPath::ModuleDeserialize(m.clone()));
        },
        VariantAttrKind::SerializeWith(p) => {
            slots.serialize_with.set(cx, item.loc, CodecPath::Function(p.clone()));
        },
        VariantAttrKind::DeserializeWith(p) => {
            slots.deserialize_with.set(cx, item.loc, CodecPath::Function(p.clone()));
        },
        VariantAttrKind::Borrow => {
            if matches!(fields, FieldsShape::Newtype) {
                slots.borrow.set_true(cx, item.loc);
            } else {
                cx.error(item.loc, ResolveErrorKind::BorrowNotOnNewtype);
            }
        },
        VariantAttrKind::UnknownAttr => {
            cx.error(item.loc, ResolveErrorKind::UnknownAttribute);
        },
        VariantAttrKind::LiteralAttr => {
            cx.error(item.loc, ResolveErrorKind::UnexpectedLiteral);
        },
    }
    proof {
        assert(cx.spec_errors() =~= old(cx).spec_errors() + variant_item_errors(
            vstate_of_slots(old(slots)),
            fields,
            *item,
        ));
        assert(vstate_of_slots(slots) =~= variant_state_step(
            vstate_of_slots(old(slots)),
            fields,
            *item,
        ));
        assert(slots.de_aliases.spec_values() =~= old(slots).de_aliases.spec_values()
            + variant_item_aliases(*item));
    }
}

} // verus!

verus! {

/// The variant-level codec plan.
#[derive(Debug, Clone, PartialEq, Eq)]
pub struct Variant {
    pub ser_name: Option<String>,
    pub de_name: Option<String>,
    pub de_aliases: Vec<String>,
    pub rename_all_ser_rule: RenameRule,
    pub rename_all_de_rule: RenameRule,
    pub skip_serializing: bool,
    pub skip_deserializing: bool,
    pub other: bool,
    pub ser_bound: Option<String>,
    pub de_bound: Option<String>,
    pub serialize_with: Option<CodecPath>,
    pub deserialize_with: Option<CodecPath>,
    pub borrow: bool,
}

impl Variant {
    /// Resolve a variant declaration into its codec plan, collecting every
    /// defect into `cx`: exactly the specification scan, in order.
    #[verifier::loop_isolation(false)]
    #[verifier::rlimit(100)]
    pub fn from_decl(cx: &mut Ctxt, decl: &VariantDecl) -> (r: Variant)
        ensures
            ({
                let st = variant_state_scan(decl.fields, decl.attrs@);
                &&& r.ser_name == st.ser_name
                &&& r.de_name == st.de_name
                &&& r.de_aliases@ == variant_aliases_scan(decl.attrs@)
                &&& r.rename_all_ser_rule == (match st.rename_all_ser {
                    Some(rule) => rule,
                    None => RenameRule::Identity,
                })
                &&& r.rename_all_de_rule == (match st.rename_all_de {
                    Some(rule) => rule,
                    None => RenameRule::Identity,
                })
                &&& r.skip_serializing == st.skip_serializing
                &&& r.skip_deserializing == st.skip_deserializing
                &&& r.other == st.other
                &&& r.ser_bound == st.ser_bound
                &&& r.de_bound == st.de_bound
                &&& r.serialize_with == st.serialize_with
                &&& r.deserialize_with == st.deserialize_with
                &&& r.borrow == st.borrow
                &&& final(cx).spec_errors() == old(cx).spec_errors() + variant_errors_scan(
                    decl.fields,
                    decl.attrs@,
                )
            }),
    {
        let mut slots = variant_slots_new();
        let n = decl.attrs.len();
        let mut i: usize = 0;
        while i < n
            invariant
                0 <= i <= n,
                variant_slots_wf(&slots),
                vstate_of_slots(&slots) == variant_state_scan(
                    decl.fields,
                    decl.attrs@.take(i as int),
                ),
                slots.de_aliases.spec_values() == variant_aliases_scan(
                    decl.attrs@.take(i as int),
                ),
                cx.spec_errors() == old(cx).spec_errors() + variant_errors_scan(
                    decl.fields,
                    decl.attrs@.take(i as int),
                ),
            decreases n - i,
        {
            let item = &decl.attrs[i];
            proof {
                assert(decl.attrs@.take(i + 1).drop_last() =~= decl.attrs@.take(i as int));
                assert(decl.attrs@.take(i + 1).last() == decl.attrs@[i as int]);
            }
            variant_apply_item(&mut slots, cx, decl.fields, item);
            i = i + 1;
        }
        proof {
            assert(decl.attrs@.take(n as int) =~= decl.attrs@);
        }
        Variant {
            ser_name: slots.ser_name.get(),
            de_name: slots.de_name.get(),
            de_aliases: slots.de_aliases.get(),
            rename_all_ser_rule: match slots.rename_all_ser.get() {
                Some(rule) => rule,
                None => RenameRule::Identity,
            },
            rename_all_de_rule: match slots.rename_all_de.get() {
                Some(rule) => rule,
                None => RenameRule::Identity,
            },
            skip_serializing: slots.skip_serializing.get(),
            skip_deserializing: slots.skip_deserializing.get(),
            other: slots.other.get(),
            ser_bound: slots.ser_bound.get(),
            de_bound: slots.de_bound.get(),
            serialize_with: slots.serialize_with.get(),
            deserialize_with: slots.deserialize_with.get(),
            borrow: slots.borrow.get(),
        }
    }
}

} // verus!

verus! {

/// One field-level configuration item.  Beyond `skip` and stray literals,
/// field items are passed over untouched.
#[derive(Debug, Clone, PartialEq, Eq)]
pub enum FieldAttrKind {
    /// `skip`: leave the field out of both directions.
    Skip,
    UnknownAttr,
    LiteralAttr,
}

#[derive(Debug, Clone, PartialEq, Eq)]
pub struct FieldAttr {
    pub loc: usize,
    pub kind: FieldAttrKind,
}

/// The skip flags after scanning the items: `skip` sets both.
pub open spec fn field_skips_scan(items: Seq<FieldAttr>) -> (bool, bool)
    decreases items.len(),
{
    if items.len() == 0 {
        (false, false)
    } else {
        let prior = field_skips_scan(items.drop_last());
        match items.last().kind {
            FieldAttrKind::Skip => (true, true),
            _ => prior,
        }
    }
}

/// The defects the field items raise: duplicate skips and stray literals.
pub open spec fn field_errors_scan(items: Seq<FieldAttr>) -> Seq<ResolveError>
    decreases items.len(),
{
    if items.len() == 0 {
        Seq::empty()
    } else {
        let prior = field_skips_scan(items.drop_last());
        field_errors_scan(items.drop_last()) + (match items.last().kind {
            FieldAttrKind::Skip => dup_errs_flag(
                prior.0,
                items.last().loc,
                Symbol::SkipSerializing,
            ) + dup_errs_flag(prior.1, items.last().loc, Symbol::SkipDeserializing),
            FieldAttrKind::UnknownAttr => Seq::empty(),
            FieldAttrKind::LiteralAttr => seq![
                ResolveError {
                    loc: items.last().loc,
                    kind: ResolveErrorKind::UnexpectedLiteral,
                },
            ],
        })
    }
}

/// The field-level codec plan: which directions leave the field out.
#[derive(Debug, Clone, PartialEq, Eq)]
pub struct Field {
    skip_serializing: bool,
    skip_deserializing: bool,
}

impl Field {
    pub closed spec fn spec_skip_serializing(&self) -> bool {
        self.skip_serializing
    }

    pub closed spec fn spec_skip_deserializing(&self) -> bool {
        self.skip_deserializing
    }

    /// Resolve a field's configuration items, collecting every defect into
    /// `cx`.
    #[verifier::loop_isolation(false)]
    pub fn from_decl(cx: &mut Ctxt, attrs: &Vec<FieldAttr>) -> (r: Field)
        ensures
            ({
                let skips = field_skips_scan(attrs@);
                &&& r.spec_skip_serializing() == skips.0
                &&& r.spec_skip_deserializing() == skips.1
                &&& final(cx).spec_errors() == old(cx).spec_errors() + field_errors_scan(attrs@)
            }),
    {
        let mut skip_serializing = BoolAttr::none(Symbol::SkipSerializing);
        let mut skip_deserializing = BoolAttr::none(Symbol::SkipDeserializing);
        let n = attrs.len();
        let mut i: usize = 0;
        while i < n
            invariant
                0 <= i <= n,
                skip_serializing.spec_name() == Symbol::SkipSerializing,
                skip_deserializing.spec_name() == Symbol::SkipDeserializing,
                skip_serializing.spec_set() == field_skips_scan(attrs@.take(i as int)).0,
                skip_deserializing.spec_set() == field_skips_scan(attrs@.take(i as int)).1,
                cx.spec_errors() == old(cx).spec_errors() + field_errors_scan(
                    attrs@.take(i as int),
                ),
            decreases n - i,
        {
            let item = &attrs[i];
            proof {
                assert(attrs@.take(i + 1).drop_last() =~= attrs@.take(i as int));
                assert(attrs@.take(i + 1).last() == attrs@[i as int]);
            }
            match &item.kind {
                FieldAttrKind::Skip => {
                    skip_serializing.set_true(cx, item.loc);
                    skip_deserializing.set_true(cx, item.loc);
                },
                FieldAttrKind::UnknownAttr => {},
                FieldAttrKind::LiteralAttr => {
                    cx.error(item.loc, ResolveErrorKind::UnexpectedLiteral);
                },
            }
            proof {
                assert(cx.spec_errors() =~= old(cx).spec_errors() + field_errors_scan(
                    attrs@.take(i + 1),
                ));
            }
            i = i + 1;
        }
        proof {
            assert(attrs@.take(n as int) =~= attrs@);
        }
        Field {
            skip_serializing: skip_serializing.get(),
            skip_deserializing: skip_deserializing.get(),
        }
    }

    /// Whether encoding leaves this field out.
    pub fn skip_serializing(&self) -> (r: bool)
        ensures
            r == self.spec_skip_serializing(),
    {
        self.skip_serializing
    }

    /// Whether decoding leaves this field out.
    pub fn skip_deserializing(&self) -> (r: bool)
        ensures
            r == self.spec_skip_deserializing(),
    {
        self.skip_deserializing
    }
}

/// Configuration conflict aggregation: a declaration that carries a second,
/// conflicting rename and an ill-placed `default` surfaces every defect in
/// one pass — the rename duplicate at the second occurrence's location,
/// once per direction it conflicts with, and the default-placement defect
/// at its own — rather than only the first.
pub proof fn lemma_conflict_aggregation(
    shape: ContainerShape,
    name: String,
    s1: String,
    s2: String,
    l1: usize,
    l2: usize,
    l3: usize,
)
    requires
        !(shape is StructNamed),
    ensures
        ({
            let items = seq![
                ContainerAttr { loc: l1, kind: ContainerAttrKind::Rename(s1) },
                ContainerAttr { loc: l2, kind: ContainerAttrKind::Rename(s2) },
                ContainerAttr { loc: l3, kind: ContainerAttrKind::DefaultValue },
            ];
            container_errors_scan(shape, name, items) == seq![
                ResolveError { loc: l2, kind: ResolveErrorKind::DuplicateAttr(Symbol::Rename) },
                ResolveError { loc: l2, kind: ResolveErrorKind::DuplicateAttr(Symbol::Rename) },
                ResolveError { loc: l3, kind: ResolveErrorKind::DefaultOnUnnamedShape },
            ]
        }),
{
    let a = ContainerAttr { loc: l1, kind: ContainerAttrKind::Rename(s1) };
    let b = ContainerAttr { loc: l2, kind: ContainerAttrKind::Rename(s2) };
    let c = ContainerAttr { loc: l3, kind: ContainerAttrKind::DefaultValue };
    let items = seq![a, b, c];
    reveal_with_fuel(container_state_scan, 5);
    reveal_with_fuel(container_errors_scan, 5);
    assert(items.drop_last() =~= seq![a, b]);
    assert(seq![a, b].drop_last() =~= seq![a]);
    assert(seq![a].drop_last() =~= Seq::<ContainerAttr>::empty());
    let s0 = container_state_init();
    let st1 = container_state_step(s0, shape, name, a);
    let st2 = container_state_step(st1, shape, name, b);
    assert(container_state_scan(shape, name, seq![a]) == st1);
    assert(container_state_scan(shape, name, seq![a, b]) == st2);
    assert(container_errors_scan(shape, name, items) =~= seq![
        ResolveError { loc: l2, kind: ResolveErrorKind::DuplicateAttr(Symbol::Rename) },
        ResolveError { loc: l2, kind: ResolveErrorKind::DuplicateAttr(Symbol::Rename) },
        ResolveError { loc: l3, kind: ResolveErrorKind::DefaultOnUnnamedShape },
    ]);
}

} // verus!
