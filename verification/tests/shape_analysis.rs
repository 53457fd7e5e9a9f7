use bucky_raw_codec::{
    borrowable_lifetimes, collect_lifetimes, is_cow, is_implicitly_borrowed,
    is_implicitly_borrowed_reference, is_option, is_primitive_type, is_slice_u8, is_str,
    resolve_borrowed_lifetimes, Ctxt, PathSegment, ResolveErrorKind, ShapeTest, TypeShape,
};

fn seg(ident: &str, lifetimes: Vec<String>, args: Vec<TypeShape>) -> PathSegment {
    PathSegment {
        ident: ident.to_owned(),
        lifetimes,
        args,
    }
}

fn named(ident: &str) -> TypeShape {
    TypeShape::Path(None, vec![seg(ident, vec![], vec![])])
}

fn shared_ref(lifetime: Option<&str>, elem: TypeShape) -> TypeShape {
    TypeShape::Reference(lifetime.map(|l| l.to_owned()), false, Box::new(elem))
}

#[test]
fn primitive_shapes() {
    assert!(is_str(&named("str")));
    assert!(!is_str(&named("String")));
    assert!(is_primitive_type(
        &TypeShape::Paren(Box::new(named("u8"))),
        "u8"
    ));
    assert!(is_slice_u8(&TypeShape::Slice(Box::new(named("u8")))));
    assert!(!is_slice_u8(&TypeShape::Slice(Box::new(named("u16")))));
}

#[test]
fn implicit_borrows() {
    let ref_str = shared_ref(Some("a"), named("str"));
    assert!(is_implicitly_borrowed_reference(&ref_str));
    assert!(is_implicitly_borrowed(&ref_str));

    // A mutable reference never borrows implicitly.
    let mut_ref = TypeShape::Reference(None, true, Box::new(named("str")));
    assert!(!is_implicitly_borrowed_reference(&mut_ref));

    let ref_bytes = shared_ref(None, TypeShape::Slice(Box::new(named("u8"))));
    assert!(is_implicitly_borrowed_reference(&ref_bytes));

    let opt_ref = TypeShape::Path(
        None,
        vec![seg("Option", vec![], vec![shared_ref(Some("a"), named("str"))])],
    );
    assert!(is_option(&opt_ref, ShapeTest::ImplicitlyBorrowedReference));
    assert!(is_implicitly_borrowed(&opt_ref));
    assert!(!is_implicitly_borrowed(&named("String")));
}

#[test]
fn cow_shapes() {
    let cow_str = TypeShape::Path(
        None,
        vec![seg("Cow", vec!["a".to_owned()], vec![named("str")])],
    );
    assert!(is_cow(&cow_str, ShapeTest::Str));
    assert!(!is_cow(&cow_str, ShapeTest::SliceU8));

    // A Cow without its lifetime argument does not count.
    let bare_cow = TypeShape::Path(None, vec![seg("Cow", vec![], vec![named("str")])]);
    assert!(!is_cow(&bare_cow, ShapeTest::Str));
}

#[test]
fn lifetimes_are_collected_in_order() {
    // (&'a str, Holder<'b, &'c [u8]>)
    let t = TypeShape::Tuple(vec![
        shared_ref(Some("a"), named("str")),
        TypeShape::Path(
            None,
            vec![seg(
                "Holder",
                vec!["b".to_owned()],
                vec![shared_ref(Some("c"), TypeShape::Slice(Box::new(named("u8"))))],
            )],
        ),
    ]);
    let mut out: Vec<String> = Vec::new();
    collect_lifetimes(&t, &mut out);
    assert_eq!(out, vec!["a".to_owned(), "b".to_owned(), "c".to_owned()]);
}

#[test]
fn borrowable_lifetimes_deduplicate() {
    // (&'a str, &'a [u8], &'b str)
    let t = TypeShape::Tuple(vec![
        shared_ref(Some("a"), named("str")),
        shared_ref(Some("a"), TypeShape::Slice(Box::new(named("u8")))),
        shared_ref(Some("b"), named("str")),
    ]);
    let mut cx = Ctxt::new();
    let lifetimes = borrowable_lifetimes(&mut cx, 7, &t).unwrap();
    assert!(cx.check().is_ok());
    assert_eq!(lifetimes, vec!["a".to_owned(), "b".to_owned()]);
}

#[test]
fn borrow_on_lifetime_free_shape_is_a_defect() {
    let mut cx = Ctxt::new();
    assert!(borrowable_lifetimes(&mut cx, 7, &named("u64")).is_err());
    let errors = cx.check().unwrap_err();
    assert_eq!(errors.len(), 1);
    assert_eq!(errors[0].loc, 7);
    assert_eq!(errors[0].kind, ResolveErrorKind::NoBorrowableLifetimes);
}

#[test]
fn explicit_lifetime_lists_are_validated() {
    let mut cx = Ctxt::new();
    let empty: Vec<String> = Vec::new();
    assert!(resolve_borrowed_lifetimes(&mut cx, 3, &empty).is_err());
    let errors = cx.check().unwrap_err();
    assert_eq!(errors[0].kind, ResolveErrorKind::EmptyLifetimeList);

    let mut cx = Ctxt::new();
    let listed = vec!["a".to_owned(), "b".to_owned(), "a".to_owned()];
    let kept = resolve_borrowed_lifetimes(&mut cx, 4, &listed).unwrap();
    assert_eq!(kept, vec!["a".to_owned(), "b".to_owned()]);
    let errors = cx.check().unwrap_err();
    assert_eq!(errors.len(), 1);
    assert_eq!(
        errors[0].kind,
        ResolveErrorKind::DuplicateBorrowedLifetime("a".to_owned())
    );
}
