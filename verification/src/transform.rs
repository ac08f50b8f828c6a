//! The transformation itself: validate the two inputs, splice the
//! guard-binding statement in front of the body's statement texts, and
//! assemble the rewritten function's source.

use vstd::prelude::*;
use vstd::string::StringExecFns;

use crate::syntax::expr_accepts;
use crate::syntax::expr_printed;
use crate::syntax::fn_header_text;
use crate::syntax::fn_inner_attrs_text;
use crate::syntax::fn_stmt_texts;
use crate::syntax::item_fn_accepts;
use crate::syntax::parse_expr;
use crate::syntax::parse_item_fn;

verus! {

/// The views of a list of statement texts.
pub open spec fn view_of_strings(texts: Seq<String>) -> Seq<Seq<char>> {
    texts.map_values(|s: String| s@)
}

/// The text of the injected statement: it evaluates `expr` once and binds its
/// value to the reserved name `guard`, which holds it until the enclosing
/// scope ends. The name is part of the public contract: user code under the
/// transformation must not rely on a local of that name.
pub open spec fn guard_stmt_text(expr: Seq<char>) -> Seq<char> {
    "let guard = "@ + expr + " ;"@
}

/// Statement texts joined in order, each followed by one space.
pub open spec fn join_spaced(ss: Seq<Seq<char>>) -> Seq<char>
    decreases ss.len(),
{
    if ss.len() == 0 {
        Seq::empty()
    } else {
        ss[0] + " "@ + join_spaced(ss.drop_first())
    }
}

/// The transformed source: the function's header, then a body that opens with
/// the body's inner attributes, then the guard-binding statement for `expr`,
/// then `stmts`, the original statement texts, in their original order.
pub open spec fn transformed_source(
    header: Seq<char>,
    inner: Seq<char>,
    expr: Seq<char>,
    stmts: Seq<Seq<char>>,
) -> Seq<char> {
    header + " { "@ + inner + " "@ + join_spaced(seq![guard_stmt_text(expr)] + stmts) + "}"@
}

/// Why a transformation was refused. Both cases are detected while the inputs
/// are parsed, before anything is rewritten: a failure never yields a
/// partially transformed function.
pub enum TransformError {
    /// The attribute argument does not parse as a single expression. Carries
    /// the parse error with its position.
    MalformedArgument(syn::Error),
    /// The annotated item does not parse as a single function definition.
    /// Carries the parse error with its position.
    MalformedTarget(syn::Error),
}

/// Places `first` in front of `stmts`: afterwards the list starts with
/// `first`, and every element that was there before follows it, in its
/// original order, with nothing removed, duplicated or reordered.
pub fn splice_first<T>(stmts: &mut Vec<T>, first: T)
    ensures
        final(stmts)@ == seq![first] + old(stmts)@,
        final(stmts)@.len() == old(stmts)@.len() + 1,
        final(stmts)@[0] == first,
        forall|i: int| 0 <= i < old(stmts)@.len() ==> final(stmts)@[i + 1] == old(stmts)@[i],
{
    stmts.insert(0, first);
    proof {
        assert(stmts@ =~= seq![first] + old(stmts)@);
    }
}

proof fn lemma_join_spaced_push(ss: Seq<Seq<char>>, x: Seq<char>)
    ensures
        join_spaced(ss.push(x)) == join_spaced(ss) + x + " "@,
    decreases ss.len(),
{
    if ss.len() == 0 {
        assert(ss.push(x)[0] == x);
        assert(ss.push(x).drop_first() =~= Seq::<Seq<char>>::empty());
        assert(join_spaced(Seq::<Seq<char>>::empty()) =~= Seq::<char>::empty());
        assert(join_spaced(ss.push(x)) =~= x + " "@ + Seq::<char>::empty());
        assert(join_spaced(ss) =~= Seq::<char>::empty());
        assert(join_spaced(ss.push(x)) =~= join_spaced(ss) + x + " "@);
    } else {
        assert(ss.push(x)[0] == ss[0]);
        assert(ss.push(x).drop_first() =~= ss.drop_first().push(x));
        lemma_join_spaced_push(ss.drop_first(), x);
        assert(join_spaced(ss.push(x)) =~= ss[0] + " "@ + join_spaced(ss.drop_first().push(x)));
        assert(join_spaced(ss) == ss[0] + " "@ + join_spaced(ss.drop_first()));
        assert(join_spaced(ss.push(x)) =~= join_spaced(ss) + x + " "@);
    }
}

/// Builds the guard-binding statement's text for the printed expression.
fn guard_stmt(expr: &str) -> (r: String)
    ensures
        r@ == guard_stmt_text(expr@),
{
    let mut s = "let guard = ".to_owned();
    s.append(expr);
    s.append(" ;");
    s
}

/// Joins statement texts in order, each followed by one space.
fn join_stmts(texts: &Vec<String>) -> (r: String)
    ensures
        r@ == join_spaced(view_of_strings(texts@)),
{
    let ghost ss = view_of_strings(texts@);
    let mut out = String::new();
    let mut i: usize = 0;
    while i < texts.len()
        invariant
            i <= texts.len(),
            ss == view_of_strings(texts@),
            out@ == join_spaced(ss.take(i as int)),
        decreases texts.len() - i,
    {
        out.append(texts[i].as_str());
        out.append(" ");
        proof {
            assert(ss[i as int] == texts@[i as int]@);
            lemma_join_spaced_push(ss.take(i as int), ss[i as int]);
            assert(ss.take(i as int).push(ss[i as int]) =~= ss.take(i as int + 1));
        }
        i = i + 1;
    }
    proof {
        assert(ss.take(texts.len() as int) =~= ss);
    }
    out
}

/// Rewrites `item`, the source of a function definition, so that `attr` — the
/// source of an arbitrary expression, typically one that acquires a lock — is
/// evaluated before any other statement of the body, its value bound to the
/// reserved `guard` binding and thereby held until the body's scope ends, on
/// every exit path. Nothing else of the function is changed: not its
/// signature, visibility or qualifiers, and no other statement.
///
/// Succeeds exactly when `attr` parses as one expression and `item` parses as
/// one function definition, and then returns exactly the transformed source;
/// otherwise it reports which of the two inputs is malformed, and emits
/// nothing.
///
/// Ordering note, when several source-level transformations are stacked on
/// one function and applied in turn: this one inserts its statement at the
/// top of whatever body it is given. Applied after a transformation that
/// wraps the body in a new scope, the binding lives inside that scope and is
/// released when the inner scope ends; applied before it, the binding's
/// statement is part of what gets wrapped, and is released only when the
/// wrapping construct fully completes.
pub fn nonparallel(attr: &str, item: &str) -> (r: Result<String, TransformError>)
    ensures
        r is Ok <==> expr_accepts(attr@) && item_fn_accepts(item@),
        r is Ok ==> r->Ok_0@ == transformed_source(
            fn_header_text(item@),
            fn_inner_attrs_text(item@),
            expr_printed(attr@),
            fn_stmt_texts(item@),
        ),
        r is Err ==> (r->Err_0 is MalformedArgument <==> !expr_accepts(attr@)),
        r is Err ==> (r->Err_0 is MalformedTarget <==> expr_accepts(attr@) && !item_fn_accepts(
            item@,
        )),
        attr@.len() == 0 ==> r is Err && r->Err_0 is MalformedArgument,
{
    let expr_text = match parse_expr(attr) {
        Ok(t) => t,
        Err(err) => {
            return Err(TransformError::MalformedArgument(err));
        },
    };
    let parsed = match parse_item_fn(item) {
        Ok(p) => p,
        Err(err) => {
            return Err(TransformError::MalformedTarget(err));
        },
    };
    let (header, inner, stmts) = parsed;
    let guard = guard_stmt(expr_text.as_str());
    let ghost guard_view = guard@;
    let ghost stmts0 = stmts@;
    let mut texts = stmts;
    splice_first(&mut texts, guard);
    proof {
        assert(view_of_strings(texts@) =~= seq![guard_view] + view_of_strings(stmts0));
    }
    let body = join_stmts(&texts);
    let mut out = header;
    out.append(" { ");
    out.append(inner.as_str());
    out.append(" ");
    out.append(body.as_str());
    out.append("}");
    proof {
        assert(out@ =~= transformed_source(
            fn_header_text(item@),
            fn_inner_attrs_text(item@),
            expr_printed(attr@),
            fn_stmt_texts(item@),
        ));
    }
    Ok(out)
}

} // verus!
