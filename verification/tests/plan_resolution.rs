use bucky_raw_codec::{
    Container, ContainerAttr, ContainerAttrKind, ContainerDecl, ContainerShape, Ctxt,
    DefaultPolicy, Field, FieldAttr, FieldAttrKind, FieldsShape, Identifier, RenameRule,
    ResolveErrorKind, Symbol, TagType, VecAttr, Variant, VariantAttr, VariantAttrKind,
    VariantDecl,
};

fn cattr(loc: usize, kind: ContainerAttrKind) -> ContainerAttr {
    ContainerAttr { loc, kind }
}

fn vattr(loc: usize, kind: VariantAttrKind) -> VariantAttr {
    VariantAttr { loc, kind }
}

#[test]
fn conflict_aggregation_reports_everything() {
    // A conflicting second rename and an ill-placed default surface
    // together in one pass, each at its own location.
    let decl = ContainerDecl {
        name: "Record".to_owned(),
        shape: ContainerShape::StructTuple,
        attrs: vec![
            cattr(10, ContainerAttrKind::Rename("one".to_owned())),
            cattr(20, ContainerAttrKind::Rename("two".to_owned())),
            cattr(30, ContainerAttrKind::DefaultValue),
        ],
    };
    let mut cx = Ctxt::new();
    let plan = Container::from_decl(&mut cx, &decl);
    let errors = cx.errors().clone();
    assert_eq!(errors.len(), 3);
    assert_eq!(errors[0].loc, 20);
    assert_eq!(errors[0].kind, ResolveErrorKind::DuplicateAttr(Symbol::Rename));
    assert_eq!(errors[1].loc, 20);
    assert_eq!(errors[1].kind, ResolveErrorKind::DuplicateAttr(Symbol::Rename));
    assert_eq!(errors[2].loc, 30);
    assert_eq!(errors[2].kind, ResolveErrorKind::DefaultOnUnnamedShape);
    // The first rename still won.
    assert_eq!(plan.ser_name, Some("one".to_owned()));
    assert_eq!(plan.de_name, Some("one".to_owned()));
    assert_eq!(plan.default_policy, DefaultPolicy::Required);
}

#[test]
fn clean_resolution_passes_check() {
    let decl = ContainerDecl {
        name: "Record".to_owned(),
        shape: ContainerShape::StructNamed,
        attrs: vec![
            cattr(1, ContainerAttrKind::RenameAll("snake_case".to_owned())),
            cattr(2, ContainerAttrKind::DefaultValue),
            cattr(3, ContainerAttrKind::OptimizeOption),
        ],
    };
    let mut cx = Ctxt::new();
    let plan = Container::from_decl(&mut cx, &decl);
    assert!(cx.check().is_ok());
    assert_eq!(plan.rename_all_ser_rule, RenameRule::SnakeCase);
    assert_eq!(plan.rename_all_de_rule, RenameRule::SnakeCase);
    assert_eq!(plan.default_policy, DefaultPolicy::ZeroValue);
    assert!(plan.optimize_option);
    assert_eq!(plan.tag, TagType::External);
    assert_eq!(plan.identifier, Identifier::No);
}

#[test]
fn unknown_rename_rule_is_reported() {
    let decl = ContainerDecl {
        name: "Record".to_owned(),
        shape: ContainerShape::Enum,
        attrs: vec![cattr(5, ContainerAttrKind::RenameAll("Mixed-Up".to_owned()))],
    };
    let mut cx = Ctxt::new();
    let _ = Container::from_decl(&mut cx, &decl);
    let errors = cx.check().unwrap_err();
    assert_eq!(errors.len(), 1);
    assert_eq!(
        errors[0].kind,
        ResolveErrorKind::UnknownRenameRule("Mixed-Up".to_owned())
    );
}

#[test]
fn rename_rules_parse() {
    assert_eq!(RenameRule::from_str("lowercase"), Some(RenameRule::LowerCase));
    assert_eq!(RenameRule::from_str("snake_case"), Some(RenameRule::SnakeCase));
    assert_eq!(
        RenameRule::from_str("SCREAMING-KEBAB-CASE"),
        Some(RenameRule::ScreamingKebabCase)
    );
    assert_eq!(RenameRule::from_str("bogus"), None);
}

#[test]
fn tag_styles_resolve() {
    let decl = ContainerDecl {
        name: "Message".to_owned(),
        shape: ContainerShape::Enum,
        attrs: vec![
            cattr(1, ContainerAttrKind::Tag("t".to_owned())),
            cattr(2, ContainerAttrKind::Content("c".to_owned())),
        ],
    };
    let mut cx = Ctxt::new();
    let plan = Container::from_decl(&mut cx, &decl);
    assert!(cx.check().is_ok());
    assert_eq!(
        plan.tag,
        TagType::Adjacent { tag: "t".to_owned(), content: "c".to_owned() }
    );

    let decl = ContainerDecl {
        name: "Message".to_owned(),
        shape: ContainerShape::Enum,
        attrs: vec![
            cattr(1, ContainerAttrKind::Untagged),
            cattr(2, ContainerAttrKind::Tag("t".to_owned())),
        ],
    };
    let mut cx = Ctxt::new();
    let plan = Container::from_decl(&mut cx, &decl);
    let errors = cx.check().unwrap_err();
    assert_eq!(plan.tag, TagType::Untagged);
    assert_eq!(errors.len(), 1);
    assert_eq!(errors[0].loc, 1);
    assert_eq!(errors[0].kind, ResolveErrorKind::UntaggedWithTag);
}

#[test]
fn shape_restrictions_are_enforced() {
    let decl = ContainerDecl {
        name: "Plain".to_owned(),
        shape: ContainerShape::StructUnit,
        attrs: vec![
            cattr(1, ContainerAttrKind::Untagged),
            cattr(2, ContainerAttrKind::Tag("t".to_owned())),
            cattr(3, ContainerAttrKind::Content("c".to_owned())),
        ],
    };
    let mut cx = Ctxt::new();
    let _ = Container::from_decl(&mut cx, &decl);
    let errors = cx.check().unwrap_err();
    assert_eq!(errors.len(), 3);
    assert_eq!(errors[0].kind, ResolveErrorKind::UntaggedNotOnEnum);
    assert_eq!(errors[1].kind, ResolveErrorKind::TagNotOnEnumOrNamedStruct);
    assert_eq!(errors[2].kind, ResolveErrorKind::ContentNotOnEnum);
}

#[test]
fn both_identifier_roles_conflict() {
    let decl = ContainerDecl {
        name: "Which".to_owned(),
        shape: ContainerShape::Enum,
        attrs: vec![
            cattr(1, ContainerAttrKind::FieldIdentifier),
            cattr(2, ContainerAttrKind::VariantIdentifier),
        ],
    };
    let mut cx = Ctxt::new();
    let plan = Container::from_decl(&mut cx, &decl);
    let errors = cx.check().unwrap_err();
    assert_eq!(plan.identifier, Identifier::No);
    assert_eq!(errors[0].kind, ResolveErrorKind::BothIdentifiers);

    assert!(!Identifier::No.is_some());
    assert!(Identifier::Field.is_some());
    assert!(Identifier::Variant.is_some());
}

#[test]
fn remote_self_takes_the_container_name() {
    let decl = ContainerDecl {
        name: "Outer".to_owned(),
        shape: ContainerShape::StructNamed,
        attrs: vec![cattr(1, ContainerAttrKind::Remote("Self".to_owned()))],
    };
    let mut cx = Ctxt::new();
    let plan = Container::from_decl(&mut cx, &decl);
    assert!(cx.check().is_ok());
    assert_eq!(plan.remote, Some("Outer".to_owned()));
}

#[test]
fn variant_rename_feeds_aliases() {
    let decl = VariantDecl {
        name: "First".to_owned(),
        fields: FieldsShape::Unit,
        attrs: vec![
            vattr(1, VariantAttrKind::Rename("a".to_owned())),
            vattr(2, VariantAttrKind::Alias("b".to_owned())),
            vattr(3, VariantAttrKind::Rename("c".to_owned())),
        ],
    };
    let mut cx = Ctxt::new();
    let plan = Variant::from_decl(&mut cx, &decl);
    // The second serialize rename is a duplicate; the deserialize name
    // keeps the first value, but every rename still lands in the aliases.
    let errors = cx.check().unwrap_err();
    assert_eq!(errors.len(), 1);
    assert_eq!(errors[0].loc, 3);
    assert_eq!(errors[0].kind, ResolveErrorKind::DuplicateAttr(Symbol::Rename));
    assert_eq!(plan.ser_name, Some("a".to_owned()));
    assert_eq!(plan.de_name, Some("a".to_owned()));
    assert_eq!(
        plan.de_aliases,
        vec!["a".to_owned(), "b".to_owned(), "c".to_owned()]
    );
}

#[test]
fn variant_skip_and_borrow() {
    let decl = VariantDecl {
        name: "Second".to_owned(),
        fields: FieldsShape::Unit,
        attrs: vec![
            vattr(1, VariantAttrKind::Skip),
            vattr(2, VariantAttrKind::Skip),
            vattr(3, VariantAttrKind::Borrow),
        ],
    };
    let mut cx = Ctxt::new();
    let plan = Variant::from_decl(&mut cx, &decl);
    let errors = cx.check().unwrap_err();
    assert!(plan.skip_serializing);
    assert!(plan.skip_deserializing);
    assert!(!plan.borrow);
    // The repeated skip duplicates both directions; borrow needs a newtype.
    assert_eq!(errors.len(), 3);
    assert_eq!(errors[0].kind, ResolveErrorKind::DuplicateAttr(Symbol::SkipSerializing));
    assert_eq!(errors[1].kind, ResolveErrorKind::DuplicateAttr(Symbol::SkipDeserializing));
    assert_eq!(errors[2].kind, ResolveErrorKind::BorrowNotOnNewtype);
}

#[test]
fn variant_directed_renames() {
    let decl = VariantDecl {
        name: "Third".to_owned(),
        fields: FieldsShape::Newtype,
        attrs: vec![
            vattr(
                1,
                VariantAttrKind::RenameSerDe(
                    Some("out".to_owned()),
                    vec!["in1".to_owned(), "in2".to_owned()],
                ),
            ),
            vattr(2, VariantAttrKind::Borrow),
        ],
    };
    let mut cx = Ctxt::new();
    let plan = Variant::from_decl(&mut cx, &decl);
    assert!(cx.check().is_ok());
    assert_eq!(plan.ser_name, Some("out".to_owned()));
    assert_eq!(plan.de_name, Some("in1".to_owned()));
    assert_eq!(plan.de_aliases, vec!["in1".to_owned(), "in2".to_owned()]);
    assert!(plan.borrow);
}

#[test]
fn field_skip_sets_both_directions() {
    let attrs = vec![FieldAttr { loc: 1, kind: FieldAttrKind::Skip }];
    let mut cx = Ctxt::new();
    let field = Field::from_decl(&mut cx, &attrs);
    assert!(cx.check().is_ok());
    assert!(field.skip_serializing());
    assert!(field.skip_deserializing());

    let attrs = vec![
        FieldAttr { loc: 1, kind: FieldAttrKind::Skip },
        FieldAttr { loc: 2, kind: FieldAttrKind::Skip },
        FieldAttr { loc: 3, kind: FieldAttrKind::LiteralAttr },
    ];
    let mut cx = Ctxt::new();
    let field = Field::from_decl(&mut cx, &attrs);
    let errors = cx.check().unwrap_err();
    assert!(field.skip_serializing());
    assert_eq!(errors.len(), 3);
    assert_eq!(errors[2].kind, ResolveErrorKind::UnexpectedLiteral);
}

#[test]
fn gathered_values_keep_order() {
    let mut aliases: VecAttr<String> = VecAttr::none(Symbol::Alias);
    aliases.insert(1, "x".to_owned());
    aliases.insert(2, "y".to_owned());
    assert_eq!(aliases.get(), vec!["x".to_owned(), "y".to_owned()]);

    let mut single: VecAttr<String> = VecAttr::none(Symbol::Rename);
    single.insert(1, "x".to_owned());
    single.insert(2, "y".to_owned());
    let mut cx = Ctxt::new();
    assert!(single.at_most_one(&mut cx).is_err());
    let errors = cx.check().unwrap_err();
    assert_eq!(errors[0].loc, 2);
    assert_eq!(errors[0].kind, ResolveErrorKind::DuplicateAttr(Symbol::Rename));
}
