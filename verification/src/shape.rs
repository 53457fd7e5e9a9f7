//! Structural type shapes: the analysis that decides whether a type can
//! borrow from the decode input (zero-copy decoding), and which lifetimes
//! it could borrow.
//!
//! A shape is the abstract skeleton of a declared type: references,
//! slices, tuples, and paths with their lifetime and type arguments.  The
//! borrow rules are purely structural — a `&str` or `&[u8]` borrows
//! implicitly, a `Cow` of either may borrow when declared, and an explicit
//! borrow declaration on a shape with no lifetimes is a defect.
use crate::plan::{str_eq, Ctxt, ResolveErrorKind};
use vstd::prelude::*;

verus! {

broadcast use vstd::std_specs::vec::axiom_vec_index_decreases;

/// One segment of a type path: its identifier, and its lifetime and type
/// arguments.
#[derive(Debug)]
pub struct PathSegment {
    pub ident: String,
    pub lifetimes: Vec<String>,
    pub args: Vec<TypeShape>,
}

/// The structural skeleton of a declared type.
#[derive(Debug)]
pub enum TypeShape {
    /// `[T]`
    Slice(Box<TypeShape>),
    /// `[T; N]`
    Array(Box<TypeShape>),
    /// `*T`
    Ptr(Box<TypeShape>),
    /// `&'a T` or `&'a mut T`: the lifetime if one is written, whether it
    /// is a mutable borrow, and the referent.
    Reference(Option<String>, bool, Box<TypeShape>),
    /// `(T, U, ...)`
    Tuple(Vec<TypeShape>),
    /// A path type, with an optional qualified self type.
    Path(Option<Box<TypeShape>>, Vec<PathSegment>),
    /// A parenthesized type.
    Paren(Box<TypeShape>),
    /// Everything without borrowable structure: bare functions, trait
    /// objects, inferred and opaque types.
    Opaque,
}

/// Every lifetime a shape mentions, in traversal order, duplicates kept.
pub open spec fn shape_lifetimes(t: TypeShape) -> Seq<String>
    decreases t,
{
    match t {
        TypeShape::Slice(e) => shape_lifetimes(*e),
        TypeShape::Array(e) => shape_lifetimes(*e),
        TypeShape::Ptr(e) => shape_lifetimes(*e),
        TypeShape::Reference(l, _, e) => (match l {
            Some(x) => seq![x],
            None => Seq::empty(),
        }) + shape_lifetimes(*e),
        TypeShape::Tuple(v) => shapes_lifetimes_upto(v, v.len() as int),
        TypeShape::Path(q, segs) => (match q {
            Some(x) => shape_lifetimes(*x),
            None => Seq::empty(),
        }) + segments_lifetimes_upto(segs, segs.len() as int),
        TypeShape::Paren(e) => shape_lifetimes(*e),
        TypeShape::Opaque => Seq::empty(),
    }
}

/// The lifetimes of the first `i` shapes of a list.
pub open spec fn shapes_lifetimes_upto(v: Vec<TypeShape>, i: int) -> Seq<String>
    decreases v, i,
{
    if i <= 0 || i > v.len() {
        Seq::empty()
    } else {
        shapes_lifetimes_upto(v, i - 1) + shape_lifetimes(v[i - 1])
    }
}

/// The lifetimes of the first `i` path segments: each contributes its own
/// lifetime arguments, then those of its type arguments.
pub open spec fn segments_lifetimes_upto(segs: Vec<PathSegment>, i: int) -> Seq<String>
    decreases segs, i,
{
    if i <= 0 || i > segs.len() {
        Seq::empty()
    } else {
        segments_lifetimes_upto(segs, i - 1) + segs[i - 1].lifetimes@ + shapes_lifetimes_upto(
            segs[i - 1].args,
            segs[i - 1].args.len() as int,
        )
    }
}

/// Gather every lifetime the shape mentions onto `out`, in traversal
/// order.
pub fn collect_lifetimes(t: &TypeShape, out: &mut Vec<String>)
    ensures
        final(out)@ == old(out)@ + shape_lifetimes(*t),
    decreases *t,
{
    let ghost pre = out@;
    match t {
        TypeShape::Slice(e) => {
            collect_lifetimes(e, out);
        },
        TypeShape::Array(e) => {
            collect_lifetimes(e, out);
        },
        TypeShape::Ptr(e) => {
            collect_lifetimes(e, out);
        },
        TypeShape::Reference(l, _, e) => {
            match l {
                Some(x) => {
                    out.push(x.clone());
                },
                None => {},
            }
            collect_lifetimes(e, out);
            proof {
                assert(out@ =~= pre + shape_lifetimes(*t));
            }
        },
        TypeShape::Tuple(v) => {
            collect_shape_list(v, out);
        },
        TypeShape::Path(q, segs) => {
            match q {
                Some(x) => {
                    collect_lifetimes(x, out);
                },
                None => {},
            }
            let ghost mid = out@;
            let n = segs.len();
            let mut i: usize = 0;
            #[verifier::loop_isolation(false)]
            while i < n
                invariant
                    0 <= i <= n,
                    out@ == mid + segments_lifetimes_upto(*segs, i as int),
                decreases n - i,
            {
                let seg = &segs[i];
                let ghost seg_pre = out@;
                let m = seg.lifetimes.len();
                let mut j: usize = 0;
                while j < m
                    invariant
                        0 <= j <= m,
                        m == seg.lifetimes@.len(),
                        out@ == seg_pre + seg.lifetimes@.take(j as int),
                    decreases m - j,
                {
                    out.push(seg.lifetimes[j].clone());
                    proof {
                        assert(seg.lifetimes@.take(j as int).push(seg.lifetimes@[j as int])
                            =~= seg.lifetimes@.take(j + 1));
                    }
                    j = j + 1;
                }
                proof {
                    assert(seg.lifetimes@.take(m as int) =~= seg.lifetimes@);
                }
                collect_shape_list(&seg.args, out);
                i = i + 1;
            }
            proof {
                assert(out@ =~= pre + shape_lifetimes(*t));
            }
        },
        TypeShape::Paren(e) => {
            collect_lifetimes(e, out);
        },
        TypeShape::Opaque => {
            proof {
                assert(out@ =~= pre + shape_lifetimes(*t));
            }
        },
    }
}

/// Gather the lifetimes of every shape in the list, in order.
fn collect_shape_list(v: &Vec<TypeShape>, out: &mut Vec<String>)
    ensures
        final(out)@ == old(out)@ + shapes_lifetimes_upto(*v, v@.len() as int),
    decreases *v,
{
    let ghost pre = out@;
    let n = v.len();
    let mut i: usize = 0;
    #[verifier::loop_isolation(false)]
    while i < n
        invariant
            0 <= i <= n,
            out@ == pre + shapes_lifetimes_upto(*v, i as int),
        decreases n - i,
    {
        collect_lifetimes(&v[i], out);
        i = i + 1;
    }
}

/// Whether some entry of `v` reads as the characters `s`.
pub open spec fn seq_contains_str(v: Seq<String>, s: Seq<char>) -> bool {
    exists|i: int| 0 <= i < v.len() && (#[trigger] v[i])@ == s
}

/// No two entries read the same.
pub open spec fn seq_distinct_str(v: Seq<String>) -> bool {
    forall|i: int, j: int| 0 <= i < j < v.len() ==> (#[trigger] v[i])@ != (#[trigger] v[j])@
}

/// Whether `v` holds an entry reading as `s`.
pub fn contains_string(v: &Vec<String>, s: &str) -> (r: bool)
    ensures
        r == seq_contains_str(v@, s@),
{
    let n = v.len();
    let mut i: usize = 0;
    #[verifier::loop_isolation(false)]
    while i < n
        invariant
            0 <= i <= n,
            forall|j: int| 0 <= j < i ==> (#[trigger] v@[j])@ != s@,
        decreases n - i,
    {
        if str_eq(v[i].as_str(), s) {
            return true;
        }
        i = i + 1;
    }
    false
}

/// The defects a borrow declaration's lifetime list carries: one per
/// repeated occurrence, at the declaration's location.
pub open spec fn duplicate_lifetime_errors(
    items: Seq<String>,
    loc: usize,
) -> Seq<crate::plan::ResolveError>
    decreases items.len(),
{
    if items.len() == 0 {
        Seq::empty()
    } else {
        duplicate_lifetime_errors(items.drop_last(), loc) + (if seq_contains_str(
            items.drop_last(),
            items.last()@,
        ) {
            seq![
                crate::plan::ResolveError {
                    loc,
                    kind: ResolveErrorKind::DuplicateBorrowedLifetime(items.last()),
                },
            ]
        } else {
            Seq::empty()
        })
    }
}

/// Keep the first occurrence of each entry, in order.
#[verifier::loop_isolation(false)]
pub fn dedup_strings(items: &Vec<String>) -> (r: Vec<String>)
    ensures
        seq_distinct_str(r@),
        forall|s: Seq<char>| seq_contains_str(r@, s) == seq_contains_str(items@, s),
{
    let mut kept: Vec<String> = Vec::new();
    let n = items.len();
    let mut i: usize = 0;
    while i < n
        invariant
            0 <= i <= n,
            seq_distinct_str(kept@),
            forall|s: Seq<char>|
                seq_contains_str(kept@, s) == seq_contains_str(items@.take(i as int), s),
        decreases n - i,
    {
        let item = &items[i];
        let ghost pre = kept@;
        if !contains_string(&kept, item.as_str()) {
            kept.push(item.clone());
        }
        proof {
            lemma_dedup_extend(pre, kept@, items@, i as int);
        }
        i = i + 1;
    }
    proof {
        assert(items@.take(n as int) =~= items@);
    }
    kept
}

/// One deduplication step: whether the next entry was kept (it was new) or
/// passed over (it was already present), membership tracks one more item.
proof fn lemma_dedup_extend(pre: Seq<String>, post: Seq<String>, items: Seq<String>, i: int)
    requires
        0 <= i < items.len(),
        forall|s: Seq<char>| seq_contains_str(pre, s) == seq_contains_str(items.take(i), s),
        seq_contains_str(pre, items[i]@) ==> post == pre,
        !seq_contains_str(pre, items[i]@) ==> post.len() == pre.len() + 1 && post
            == pre.push(post.last()) && post.last()@ == items[i]@,
    ensures
        forall|s: Seq<char>| seq_contains_str(post, s) == seq_contains_str(items.take(i + 1), s),
{
    assert forall|s: Seq<char>|
        seq_contains_str(post, s) == seq_contains_str(items.take(i + 1), s) by {
        if seq_contains_str(post, s) {
            let w = choose|k: int| 0 <= k < post.len() && (#[trigger] post[k])@ == s;
            if w < pre.len() {
                assert(pre[w]@ == s);
                assert(seq_contains_str(pre, s));
                let w2 = choose|k: int|
                    0 <= k < items.take(i).len() && (#[trigger] items.take(i)[k])@ == s;
                assert((items.take(i + 1)[w2])@ == s);
            } else {
                assert(post[w]@ == items[i]@);
                assert((items.take(i + 1)[i])@ == s);
            }
            assert(seq_contains_str(items.take(i + 1), s));
        }
        if seq_contains_str(items.take(i + 1), s) {
            let w = choose|k: int|
                0 <= k < items.take(i + 1).len() && (#[trigger] items.take(i + 1)[k])@ == s;
            if w < i {
                assert((items.take(i)[w])@ == s);
                assert(seq_contains_str(items.take(i), s));
                assert(seq_contains_str(pre, s));
                let w3 = choose|k: int| 0 <= k < pre.len() && (#[trigger] pre[k])@ == s;
                if seq_contains_str(pre, items[i]@) {
                    assert(post[w3]@ == s);
                } else {
                    assert(post[w3]@ == s);
                }
            } else {
                assert(items[i]@ == s);
                if seq_contains_str(pre, items[i]@) {
                    let w4 = choose|k: int| 0 <= k < pre.len() && (#[trigger] pre[k])@ == items[i]@;
                    assert(post[w4]@ == s);
                } else {
                    assert(post.last()@ == s);
                    assert(post[post.len() - 1]@ == s);
                }
            }
            assert(seq_contains_str(post, s));
        }
    }
}

/// Keep the first occurrence of each lifetime, reporting every repeat; an
/// empty list is itself a defect.  This validates an explicit borrow
/// declaration that lists the lifetimes to borrow.
#[verifier::loop_isolation(false)]
pub fn resolve_borrowed_lifetimes(cx: &mut Ctxt, loc: usize, items: &Vec<String>) -> (r: Result<
    Vec<String>,
    (),
>)
    ensures
        items@.len() == 0 ==> r is Err && final(cx).spec_errors() == old(cx).spec_errors().push(
            crate::plan::ResolveError { loc, kind: ResolveErrorKind::EmptyLifetimeList },
        ),
        items@.len() > 0 ==> ({
            &&& final(cx).spec_errors() == old(cx).spec_errors() + duplicate_lifetime_errors(
                items@,
                loc,
            )
            &&& (r matches Ok(v) ==> seq_distinct_str(v@) && (forall|s: Seq<char>|
                seq_contains_str(v@, s) == seq_contains_str(items@, s)))
            &&& r is Ok
        }),
{
    if items.len() == 0 {
        cx.error(loc, ResolveErrorKind::EmptyLifetimeList);
        return Err(());
    }
    let mut kept: Vec<String> = Vec::new();
    let n = items.len();
    let mut i: usize = 0;
    while i < n
        invariant
            0 <= i <= n,
            seq_distinct_str(kept@),
            forall|s: Seq<char>|
                seq_contains_str(kept@, s) == seq_contains_str(items@.take(i as int), s),
            cx.spec_errors() == old(cx).spec_errors() + duplicate_lifetime_errors(
                items@.take(i as int),
                loc,
            ),
        decreases n - i,
    {
        let item = &items[i];
        let ghost pre = kept@;
        proof {
            assert(items@.take(i + 1).drop_last() =~= items@.take(i as int));
            assert(items@.take(i + 1).last() == items@[i as int]);
        }
        if contains_string(&kept, item.as_str()) {
            cx.error(loc, ResolveErrorKind::DuplicateBorrowedLifetime(item.clone()));
        } else {
            kept.push(item.clone());
        }
        proof {
            lemma_dedup_extend(pre, kept@, items@, i as int);
            assert(cx.spec_errors() =~= old(cx).spec_errors() + duplicate_lifetime_errors(
                items@.take(i + 1),
                loc,
            ));
        }
        i = i + 1;
    }
    proof {
        assert(items@.take(n as int) =~= items@);
    }
    Ok(kept)
}

/// Collect and deduplicate every lifetime a shape could borrow; a shape
/// with none cannot carry an explicit borrow declaration, which is a
/// defect.
pub fn borrowable_lifetimes(cx: &mut Ctxt, loc: usize, t: &TypeShape) -> (r: Result<
    Vec<String>,
    (),
>)
    ensures
        shape_lifetimes(*t).len() == 0 ==> r is Err && final(cx).spec_errors() == old(
            cx,
        ).spec_errors().push(
            crate::plan::ResolveError { loc, kind: ResolveErrorKind::NoBorrowableLifetimes },
        ),
        shape_lifetimes(*t).len() > 0 ==> ({
            &&& *final(cx) == *old(cx)
            &&& (r matches Ok(v) ==> seq_distinct_str(v@) && (forall|s: Seq<char>|
                seq_contains_str(v@, s) == seq_contains_str(shape_lifetimes(*t), s)))
            &&& r is Ok
        }),
{
    let mut all: Vec<String> = Vec::new();
    collect_lifetimes(t, &mut all);
    if all.len() == 0 {
        cx.error(loc, ResolveErrorKind::NoBorrowableLifetimes);
        return Err(());
    }
    Ok(dedup_strings(&all))
}

/// A one-segment path naming `primitive`, with no arguments.
pub open spec fn spec_is_primitive_path(segs: Seq<PathSegment>, primitive: Seq<char>) -> bool {
    &&& segs.len() == 1
    &&& segs[0].ident@ == primitive
    &&& segs[0].lifetimes@.len() == 0
    &&& segs[0].args@.len() == 0
}

pub fn is_primitive_path(segs: &Vec<PathSegment>, primitive: &str) -> (r: bool)
    ensures
        r == spec_is_primitive_path(segs@, primitive@),
{
    if segs.len() != 1 {
        return false;
    }
    let seg = &segs[0];
    str_eq(seg.ident.as_str(), primitive) && seg.lifetimes.len() == 0 && seg.args.len() == 0
}

/// An unqualified path naming exactly `primitive`, parentheses ignored.
pub open spec fn spec_is_primitive_type(t: TypeShape, primitive: Seq<char>) -> bool
    decreases t, 0int,
{
    match t {
        TypeShape::Paren(e) => spec_is_primitive_type(*e, primitive),
        TypeShape::Path(q, segs) => q is None && spec_is_primitive_path(segs@, primitive),
        _ => false,
    }
}

pub fn is_primitive_type(t: &TypeShape, primitive: &str) -> (r: bool)
    ensures
        r == spec_is_primitive_type(*t, primitive@),
    decreases *t, 0int,
{
    match t {
        TypeShape::Paren(e) => is_primitive_type(e, primitive),
        TypeShape::Path(q, segs) => q.is_none() && is_primitive_path(segs, primitive),
        _ => false,
    }
}

/// The element tests the borrow analysis composes with.
#[derive(Debug, Clone, Copy, PartialEq, Eq, Structural)]
pub enum ShapeTest {
    /// The bare `str` type.
    Str,
    /// A `[u8]` slice.
    SliceU8,
    /// A shared reference to either of those.
    ImplicitlyBorrowedReference,
}

/// `str`.
pub open spec fn spec_is_str(t: TypeShape) -> bool
    decreases t, 1int,
{
    spec_is_primitive_type(t, "str"@)
}

/// `[u8]`, parentheses ignored.
pub open spec fn spec_is_slice_u8(t: TypeShape) -> bool
    decreases t, 1int,
{
    match t {
        TypeShape::Paren(e) => spec_is_slice_u8(*e),
        TypeShape::Slice(e) => spec_is_primitive_type(*e, "u8"@),
        _ => false,
    }
}

/// A shared (never mutable) reference whose referent passes `test`.
pub open spec fn spec_is_reference(t: TypeShape, test: ShapeTest) -> bool
    decreases t, 2int,
{
    match t {
        TypeShape::Paren(e) => spec_is_reference(*e, test),
        TypeShape::Reference(_, is_mut, e) => !is_mut && spec_shape_test(*e, test),
        _ => false,
    }
}

/// `&str` or `&[u8]`: always borrowed, no declaration needed.
pub open spec fn spec_is_implicitly_borrowed_reference(t: TypeShape) -> bool
    decreases t, 3int,
{
    spec_is_reference(t, ShapeTest::Str) || spec_is_reference(t, ShapeTest::SliceU8)
}

pub open spec fn spec_shape_test(t: TypeShape, test: ShapeTest) -> bool
    decreases t, 5int,
{
    match test {
        ShapeTest::Str => spec_is_str(t),
        ShapeTest::SliceU8 => spec_is_slice_u8(t),
        ShapeTest::ImplicitlyBorrowedReference => spec_is_implicitly_borrowed_reference(t),
    }
}

/// A path whose last segment looks like `Cow<'_, E>` with `E` passing
/// `test`, parentheses ignored.
pub open spec fn spec_is_cow(t: TypeShape, test: ShapeTest) -> bool
    decreases t, 6int,
{
    match t {
        TypeShape::Paren(e) => spec_is_cow(*e, test),
        TypeShape::Path(_, segs) => {
            &&& segs@.len() > 0
            &&& segs@.last().ident@ == "Cow"@
            &&& segs@.last().lifetimes@.len() == 1
            &&& segs@.last().args@.len() == 1
            &&& spec_shape_test(segs@.last().args[0], test)
        },
        _ => false,
    }
}

/// A path whose last segment looks like `Option<E>` with `E` passing
/// `test`, parentheses ignored.
pub open spec fn spec_is_option(t: TypeShape, test: ShapeTest) -> bool
    decreases t, 6int,
{
    match t {
        TypeShape::Paren(e) => spec_is_option(*e, test),
        TypeShape::Path(_, segs) => {
            &&& segs@.len() > 0
            &&& segs@.last().ident@ == "Option"@
            &&& segs@.last().lifetimes@.len() == 0
            &&& segs@.last().args@.len() == 1
            &&& spec_shape_test(segs@.last().args[0], test)
        },
        _ => false,
    }
}

/// `&str`, `&[u8]`, or an `Option` of such a reference: these borrow from
/// the input without any declaration.
pub open spec fn spec_is_implicitly_borrowed(t: TypeShape) -> bool
    decreases t, 7int,
{
    spec_is_implicitly_borrowed_reference(t) || spec_is_option(
        t,
        ShapeTest::ImplicitlyBorrowedReference,
    )
}

pub fn shape_test(t: &TypeShape, test: ShapeTest) -> (r: bool)
    ensures
        r == spec_shape_test(*t, test),
    decreases *t, 5int,
{
    match test {
        ShapeTest::Str => is_str(t),
        ShapeTest::SliceU8 => is_slice_u8(t),
        ShapeTest::ImplicitlyBorrowedReference => is_implicitly_borrowed_reference(t),
    }
}

pub fn is_str(t: &TypeShape) -> (r: bool)
    ensures
        r == spec_is_str(*t),
    decreases *t, 1int,
{
    is_primitive_type(t, "str")
}

pub fn is_slice_u8(t: &TypeShape) -> (r: bool)
    ensures
        r == spec_is_slice_u8(*t),
    decreases *t, 1int,
{
    match t {
        TypeShape::Paren(e) => is_slice_u8(e),
        TypeShape::Slice(e) => is_primitive_type(e, "u8"),
        _ => false,
    }
}

pub fn is_reference(t: &TypeShape, test: ShapeTest) -> (r: bool)
    ensures
        r == spec_is_reference(*t, test),
    decreases *t, 2int,
{
    match t {
        TypeShape::Paren(e) => is_reference(e, test),
        TypeShape::Reference(_, is_mut, e) => !*is_mut && shape_test(e, test),
        _ => false,
    }
}

pub fn is_implicitly_borrowed_reference(t: &TypeShape) -> (r: bool)
    ensures
        r == spec_is_implicitly_borrowed_reference(*t),
    decreases *t, 3int,
{
    is_reference(t, ShapeTest::Str) || is_reference(t, ShapeTest::SliceU8)
}

pub fn is_implicitly_borrowed(t: &TypeShape) -> (r: bool)
    ensures
        r == spec_is_implicitly_borrowed(*t),
{
    is_implicitly_borrowed_reference(t) || is_option(t, ShapeTest::ImplicitlyBorrowedReference)
}

pub fn is_cow(t: &TypeShape, test: ShapeTest) -> (r: bool)
    ensures
        r == spec_is_cow(*t, test),
    decreases *t, 6int,
{
    match t {
        TypeShape::Paren(e) => is_cow(e, test),
        TypeShape::Path(_, segs) => {
            let n = segs.len();
            if n == 0 {
                return false;
            }
            let seg = &segs[n - 1];
            str_eq(seg.ident.as_str(), "Cow") && seg.lifetimes.len() == 1 && seg.args.len() == 1
                && shape_test(&seg.args[0], test)
        },
        _ => false,
    }
}

pub fn is_option(t: &TypeShape, test: ShapeTest) -> (r: bool)
    ensures
        r == spec_is_option(*t, test),
    decreases *t, 6int,
{
    match t {
        TypeShape::Paren(e) => is_option(e, test),
        TypeShape::Path(_, segs) => {
            let n = segs.len();
            if n == 0 {
                return false;
            }
            let seg = &segs[n - 1];
            str_eq(seg.ident.as_str(), "Option") && seg.lifetimes.len() == 0 && seg.args.len() == 1
                && shape_test(&seg.args[0], test)
        },
        _ => false,
    }
}

} // verus!
