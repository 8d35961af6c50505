use vstd::prelude::*;

use crate::literal::{Literal, LiteralV};
use crate::sql::{decimal, escape_key, push_decimal, push_escaped, text_is};

verus! {

/// The comparison operators of the filter language.
#[derive(Clone, Copy, Debug, PartialEq, Eq, Structural)]
pub enum Op {
    Eq,
    Ne,
    Gt,
    Gte,
    Lt,
    Lte,
    In,
}

/// A leaf of a metadata filter: `{ path: { op: value } }`, where `path` lists the
/// nested keys of the metadata field.
#[derive(Debug)]
pub struct Comparison {
    pub path: Vec<String>,
    pub op: String,
    pub value: Literal,
}

/// A metadata filter tree.
#[derive(Debug)]
pub enum Filter {
    And(Vec<Filter>),
    Or(Vec<Filter>),
    Compare(Comparison),
}

#[derive(Clone, Copy, Debug, PartialEq, Eq, Structural)]
pub enum FilterError {
    /// An unknown operator, an empty combinator, an empty field path, or a
    /// value whose type does not suit its operator.
    MalformedFilter,
}

/// A compiled predicate and its positional bind values, in placeholder order.
#[derive(Debug)]
pub struct Compiled {
    pub predicate: String,
    pub binds: Vec<Literal>,
}

/// The operator that an operator key names, if any.
pub open spec fn op_of(s: Seq<char>) -> Option<Op> {
    if s == "$eq"@ {
        Some(Op::Eq)
    } else if s == "$ne"@ {
        Some(Op::Ne)
    } else if s == "$gt"@ {
        Some(Op::Gt)
    } else if s == "$gte"@ {
        Some(Op::Gte)
    } else if s == "$lt"@ {
        Some(Op::Lt)
    } else if s == "$lte"@ {
        Some(Op::Lte)
    } else if s == "$in"@ {
        Some(Op::In)
    } else {
        None
    }
}

/// Whether a value's type suits an operator: `$eq` takes anything, `$ne` a
/// scalar, the orderings a number or a string, `$in` an array.
pub open spec fn fits(op: Op, v: LiteralV) -> bool {
    match op {
        Op::Eq => true,
        Op::Ne => v is One,
        Op::In => v is Many,
        _ => match v {
            LiteralV::One(s) => s is Int || s is Text,
            LiteralV::Many(_) => false,
        },
    }
}

/// The SQL operator of a comparison: `$eq` against an array is containment.
pub open spec fn sql_op(op: Op, v: LiteralV) -> Seq<char> {
    match op {
        Op::Eq => if v is Many {
            "@>"@
        } else {
            "="@
        },
        Op::Ne => "<>"@,
        Op::Gt => ">"@,
        Op::Gte => ">="@,
        Op::Lt => "<"@,
        Op::Lte => "<="@,
        Op::In => "<@"@,
    }
}

/// A path names at least one key; any text is a key.
pub open spec fn path_ok(p: Seq<String>) -> bool {
    p.len() > 0
}

/// A key as a quoted, escaped element of an array literal.
pub open spec fn key_sql(k: Seq<char>) -> Seq<char> {
    "\""@ + escape_key(k) + "\""@
}

/// The quoted keys of a path separated by commas.
pub open spec fn join_path(p: Seq<String>) -> Seq<char>
    decreases p.len(),
{
    if p.len() == 0 {
        Seq::empty()
    } else if p.len() == 1 {
        key_sql(p[0]@)
    } else {
        join_path(p.subrange(0, p.len() - 1)) + ","@ + key_sql(p[p.len() - 1]@)
    }
}

/// The expression that reads a nested metadata field.
pub open spec fn path_sql(p: Seq<String>) -> Seq<char> {
    "(metadata #> '{"@ + join_path(p) + "}')"@
}

pub open spec fn comparison_ok(c: Comparison) -> bool {
    &&& path_ok(c.path@)
    &&& op_of(c.op@) is Some
    &&& fits(op_of(c.op@)->0, c.value@)
}

/// The text of a comparison whose value is bound to placeholder `n`.
pub open spec fn comparison_sql(c: Comparison, n: nat) -> Seq<char> {
    path_sql(c.path@) + " "@ + sql_op(op_of(c.op@)->0, c.value@) + " $"@ + decimal(n)
}

/// The children of a combinator.
pub open spec fn children(f: Filter) -> Seq<Filter> {
    match f {
        Filter::And(cs) => cs@,
        Filter::Or(cs) => cs@,
        Filter::Compare(_) => Seq::empty(),
    }
}

/// The text that joins the children of a combinator.
pub open spec fn separator(f: Filter) -> Seq<char> {
    if f is Or {
        " OR "@
    } else {
        " AND "@
    }
}

/// Whether a filter compiles: every operator known and suited to its value,
/// every path non-empty, every combinator with at least one child.
pub open spec fn well_formed(f: Filter) -> bool
    decreases f,
{
    match f {
        Filter::Compare(c) => comparison_ok(c),
        Filter::And(cs) => cs@.len() > 0 && well_formed_all(cs@),
        Filter::Or(cs) => cs@.len() > 0 && well_formed_all(cs@),
    }
}

pub open spec fn well_formed_all(cs: Seq<Filter>) -> bool
    decreases cs,
{
    cs.len() == 0 || (well_formed_all(cs.subrange(0, cs.len() - 1)) && well_formed(
        cs[cs.len() - 1],
    ))
}

/// Whether some comparison in the tree has an operator key that names no operator.
pub open spec fn has_unknown_op(f: Filter) -> bool
    decreases f,
{
    match f {
        Filter::Compare(c) => op_of(c.op@) is None,
        Filter::And(cs) => has_unknown_op_all(cs@),
        Filter::Or(cs) => has_unknown_op_all(cs@),
    }
}

pub open spec fn has_unknown_op_all(cs: Seq<Filter>) -> bool
    decreases cs,
{
    cs.len() > 0 && (has_unknown_op_all(cs.subrange(0, cs.len() - 1)) || has_unknown_op(
        cs[cs.len() - 1],
    ))
}

/// The literal values of the comparisons, depth-first and left to right.
pub open spec fn leaves(f: Filter) -> Seq<LiteralV>
    decreases f,
{
    match f {
        Filter::Compare(c) => seq![c.value@],
        Filter::And(cs) => leaves_all(cs@),
        Filter::Or(cs) => leaves_all(cs@),
    }
}

pub open spec fn leaves_all(cs: Seq<Filter>) -> Seq<LiteralV>
    decreases cs,
{
    if cs.len() == 0 {
        Seq::empty()
    } else {
        leaves_all(cs.subrange(0, cs.len() - 1)) + leaves(cs[cs.len() - 1])
    }
}

/// The predicate text of a filter whose first placeholder is `n`.
pub open spec fn render(f: Filter, n: nat) -> Seq<char>
    decreases f,
{
    match f {
        Filter::Compare(c) => comparison_sql(c, n),
        Filter::And(cs) => render_all(cs@, n, " AND "@),
        Filter::Or(cs) => render_all(cs@, n, " OR "@),
    }
}

/// Each child in parentheses, joined by `sep`; the placeholders of a child
/// follow those of the children before it.
pub open spec fn render_all(cs: Seq<Filter>, n: nat, sep: Seq<char>) -> Seq<char>
    decreases cs,
{
    if cs.len() == 0 {
        Seq::empty()
    } else {
        let init = cs.subrange(0, cs.len() - 1);
        let item = "("@ + render(cs[cs.len() - 1], n + leaves_all(init).len()) + ")"@;
        if init.len() == 0 {
            item
        } else {
            render_all(init, n, sep) + sep + item
        }
    }
}

/// The placeholder numbers in the predicate text, in the order they appear.
pub open spec fn placeholders(f: Filter, n: nat) -> Seq<nat>
    decreases f,
{
    match f {
        Filter::Compare(c) => seq![n],
        Filter::And(cs) => placeholders_all(cs@, n),
        Filter::Or(cs) => placeholders_all(cs@, n),
    }
}

pub open spec fn placeholders_all(cs: Seq<Filter>, n: nat) -> Seq<nat>
    decreases cs,
{
    if cs.len() == 0 {
        Seq::empty()
    } else {
        let init = cs.subrange(0, cs.len() - 1);
        placeholders_all(init, n) + placeholders(cs[cs.len() - 1], n + leaves_all(init).len())
    }
}

/// The numbers `n, n + 1, ..., n + len - 1`.
pub open spec fn consecutive(n: nat, len: nat) -> Seq<nat> {
    Seq::new(len, |i: int| (n + i) as nat)
}

pub open spec fn views(s: Seq<Literal>) -> Seq<LiteralV> {
    s.map_values(|l: Literal| l@)
}

/// Placeholders are numbered consecutively from the first number, one for each
/// comparison, in depth-first left-to-right order.
pub proof fn lemma_placeholders_consecutive(f: Filter, n: nat)
    ensures
        placeholders(f, n) == consecutive(n, leaves(f).len()),
    decreases f,
{
    match f {
        Filter::Compare(c) => {
            assert(placeholders(f, n) =~= consecutive(n, 1));
        },
        Filter::And(cs) => {
            lemma_placeholders_all_consecutive(cs@, n);
        },
        Filter::Or(cs) => {
            lemma_placeholders_all_consecutive(cs@, n);
        },
    }
}

pub proof fn lemma_placeholders_all_consecutive(cs: Seq<Filter>, n: nat)
    ensures
        placeholders_all(cs, n) == consecutive(n, leaves_all(cs).len()),
    decreases cs,
{
    if cs.len() == 0 {
        assert(placeholders_all(cs, n) =~= consecutive(n, 0));
    } else {
        let init = cs.subrange(0, cs.len() - 1);
        let last = cs[cs.len() - 1];
        let k = leaves_all(init).len();
        lemma_placeholders_all_consecutive(init, n);
        lemma_placeholders_consecutive(last, n + k);
        assert(placeholders_all(cs, n) =~= consecutive(n, leaves_all(cs).len()));
    }
}

/// A filter with an unknown operator key anywhere in it, at any depth, is not
/// well formed, and so fails to compile.
pub proof fn lemma_unknown_op_malformed(f: Filter)
    requires
        has_unknown_op(f),
    ensures
        !well_formed(f),
    decreases f,
{
    match f {
        Filter::Compare(c) => {},
        Filter::And(cs) => {
            lemma_unknown_op_malformed_all(cs@);
        },
        Filter::Or(cs) => {
            lemma_unknown_op_malformed_all(cs@);
        },
    }
}

pub proof fn lemma_unknown_op_malformed_all(cs: Seq<Filter>)
    requires
        has_unknown_op_all(cs),
    ensures
        !well_formed_all(cs),
    decreases cs,
{
    let init = cs.subrange(0, cs.len() - 1);
    if has_unknown_op_all(init) {
        lemma_unknown_op_malformed_all(init);
    } else {
        lemma_unknown_op_malformed(cs[cs.len() - 1]);
    }
}

/// `well_formed_all` of a sequence is `well_formed` of each element.
proof fn lemma_well_formed_all(cs: Seq<Filter>)
    ensures
        well_formed_all(cs) <==> forall|i: int| 0 <= i < cs.len() ==> #[trigger] well_formed(cs[i]),
    decreases cs.len(),
{
    if cs.len() > 0 {
        let init = cs.subrange(0, cs.len() - 1);
        lemma_well_formed_all(init);
        assert(well_formed_all(cs) == (well_formed_all(init) && well_formed(cs[cs.len() - 1])));
        if well_formed_all(cs) {
            assert forall|i: int| 0 <= i < cs.len() implies #[trigger] well_formed(cs[i]) by {
                if i < init.len() {
                    assert(init[i] == cs[i]);
                }
            }
        }
        if forall|i: int| 0 <= i < cs.len() ==> #[trigger] well_formed(cs[i]) {
            assert forall|i: int| 0 <= i < init.len() implies #[trigger] well_formed(init[i]) by {
                assert(init[i] == cs[i]);
            }
        }
    }
}

/// Text pieces with decimal numbers between them: `segs[0]`, the first number,
/// `segs[1]`, ..., the last number, the last piece.
pub open spec fn weave(segs: Seq<Seq<char>>, nums: Seq<nat>) -> Seq<char>
    decreases nums.len(),
{
    if segs.len() == 0 {
        Seq::empty()
    } else if nums.len() == 0 {
        segs[0]
    } else {
        weave(segs.subrange(0, segs.len() - 1), nums.subrange(0, nums.len() - 1)) + decimal(
            nums[nums.len() - 1],
        ) + segs[segs.len() - 1]
    }
}

/// Two piece lists joined: the last piece of `a` runs into the first of `b`.
pub open spec fn combine(a: Seq<Seq<char>>, b: Seq<Seq<char>>) -> Seq<Seq<char>> {
    a.subrange(0, a.len() - 1) + seq![a[a.len() - 1] + b[0]] + b.subrange(1, b.len() as int)
}

pub open spec fn prepend(x: Seq<char>, a: Seq<Seq<char>>) -> Seq<Seq<char>> {
    a.update(0, x + a[0])
}

pub open spec fn append(a: Seq<Seq<char>>, y: Seq<char>) -> Seq<Seq<char>> {
    a.update(a.len() - 1, a[a.len() - 1] + y)
}

/// The fixed text of a filter's predicate: the pieces between its placeholder
/// numbers, which do not depend on where numbering starts.
pub open spec fn segments(f: Filter) -> Seq<Seq<char>>
    decreases f,
{
    match f {
        Filter::Compare(c) => seq![
            path_sql(c.path@) + " "@ + sql_op(op_of(c.op@)->0, c.value@) + " $"@,
            Seq::empty(),
        ],
        Filter::And(cs) => segments_all(cs@, " AND "@),
        Filter::Or(cs) => segments_all(cs@, " OR "@),
    }
}

pub open spec fn segments_all(cs: Seq<Filter>, sep: Seq<char>) -> Seq<Seq<char>>
    decreases cs,
{
    if cs.len() == 0 {
        seq![Seq::empty()]
    } else {
        let init = cs.subrange(0, cs.len() - 1);
        let item = append(prepend("("@, segments(cs[cs.len() - 1])), ")"@);
        if init.len() == 0 {
            item
        } else {
            combine(append(segments_all(init, sep), sep), item)
        }
    }
}

proof fn lemma_weave_append(a: Seq<Seq<char>>, nums: Seq<nat>, y: Seq<char>)
    requires
        a.len() == nums.len() + 1,
    ensures
        weave(append(a, y), nums) == weave(a, nums) + y,
{
    if nums.len() > 0 {
        assert(append(a, y).subrange(0, a.len() - 1) =~= a.subrange(0, a.len() - 1));
        assert(weave(append(a, y), nums) =~= weave(a, nums) + y);
    }
}

proof fn lemma_weave_prepend(x: Seq<char>, a: Seq<Seq<char>>, nums: Seq<nat>)
    requires
        a.len() == nums.len() + 1,
    ensures
        weave(prepend(x, a), nums) == x + weave(a, nums),
    decreases nums.len(),
{
    if nums.len() > 0 {
        let a0 = a.subrange(0, a.len() - 1);
        let n0 = nums.subrange(0, nums.len() - 1);
        assert(prepend(x, a).subrange(0, a.len() - 1) =~= prepend(x, a0));
        lemma_weave_prepend(x, a0, n0);
        assert(weave(prepend(x, a), nums) =~= x + weave(a, nums));
    } else {
        assert(weave(prepend(x, a), nums) =~= x + weave(a, nums));
    }
}

proof fn lemma_weave_combine(a: Seq<Seq<char>>, an: Seq<nat>, b: Seq<Seq<char>>, bn: Seq<nat>)
    requires
        a.len() == an.len() + 1,
        b.len() == bn.len() + 1,
    ensures
        combine(a, b).len() == a.len() + b.len() - 1,
        weave(combine(a, b), an + bn) == weave(a, an) + weave(b, bn),
    decreases bn.len(),
{
    if bn.len() == 0 {
        assert(combine(a, b) =~= append(a, b[0]));
        assert(an + bn =~= an);
        lemma_weave_append(a, an, b[0]);
    } else {
        let b0 = b.subrange(0, b.len() - 1);
        let bn0 = bn.subrange(0, bn.len() - 1);
        lemma_weave_combine(a, an, b0, bn0);
        let c = combine(a, b);
        assert(c.subrange(0, c.len() - 1) =~= combine(a, b0));
        assert((an + bn).subrange(0, an.len() + bn.len() - 1) =~= an + bn0);
        assert(c[c.len() - 1] == b[b.len() - 1]);
        assert((an + bn)[an.len() + bn.len() - 1] == bn[bn.len() - 1]);
        assert(weave(c, an + bn) =~= weave(a, an) + weave(b, bn));
    }
}

/// The predicate text is the fixed pieces of `segments(f)` with the
/// placeholder numbers between them.
pub proof fn lemma_render_weaves_placeholders(f: Filter, n: nat)
    ensures
        segments(f).len() == placeholders(f, n).len() + 1,
        render(f, n) == weave(segments(f), placeholders(f, n)),
    decreases f,
{
    match f {
        Filter::Compare(c) => {
            let s = segments(f);
            assert(s.subrange(0, 1) =~= seq![s[0]]);
            assert(seq![n].subrange(0, 0) =~= Seq::<nat>::empty());
            assert(placeholders(f, n) == seq![n]);
            assert(weave(s.subrange(0, 1), Seq::<nat>::empty()) == s[0]);
            assert(weave(s, seq![n]) == s[0] + decimal(n) + s[1]);
            assert(render(f, n) =~= weave(s, seq![n]));
        },
        Filter::And(cs) => {
            lemma_render_weaves_placeholders_all(cs@, n, " AND "@);
        },
        Filter::Or(cs) => {
            lemma_render_weaves_placeholders_all(cs@, n, " OR "@);
        },
    }
}

pub proof fn lemma_render_weaves_placeholders_all(cs: Seq<Filter>, n: nat, sep: Seq<char>)
    ensures
        segments_all(cs, sep).len() == placeholders_all(cs, n).len() + 1,
        render_all(cs, n, sep) == weave(segments_all(cs, sep), placeholders_all(cs, n)),
    decreases cs,
{
    if cs.len() > 0 {
        let init = cs.subrange(0, cs.len() - 1);
        let last = cs[cs.len() - 1];
        let m = n + leaves_all(init).len();
        lemma_render_weaves_placeholders(last, m);
        lemma_weave_prepend("("@, segments(last), placeholders(last, m));
        let p = prepend("("@, segments(last));
        lemma_weave_append(p, placeholders(last, m), ")"@);
        let item = append(p, ")"@);
        assert(weave(item, placeholders(last, m)) =~= "("@ + render(last, m) + ")"@);
        if init.len() == 0 {
            assert(placeholders_all(init, n) =~= Seq::<nat>::empty());
            assert(placeholders_all(cs, n) =~= placeholders(last, m));
        } else {
            lemma_render_weaves_placeholders_all(init, n, sep);
            let si = segments_all(init, sep);
            lemma_weave_append(si, placeholders_all(init, n), sep);
            lemma_weave_combine(append(si, sep), placeholders_all(init, n), item, placeholders(last, m));
            assert(render_all(cs, n, sep) =~= weave(segments_all(cs, sep), placeholders_all(cs, n)));
        }
    }
}

/// The predicate text is fixed pieces with the numbers `n, n + 1, ...`
/// between them, one for each comparison, in depth-first left-to-right order.
pub proof fn lemma_placeholders_in_text(f: Filter, n: nat)
    ensures
        segments(f).len() == leaves(f).len() + 1,
        render(f, n) == weave(segments(f), consecutive(n, leaves(f).len())),
{
    lemma_render_weaves_placeholders(f, n);
    lemma_placeholders_consecutive(f, n);
}

proof fn lemma_leaves_prefix(cs: Seq<Filter>, i: int)
    requires
        0 <= i <= cs.len(),
    ensures
        leaves_all(cs.subrange(0, i)).len() <= leaves_all(cs).len(),
    decreases cs.len(),
{
    if i < cs.len() {
        let init = cs.subrange(0, cs.len() - 1);
        assert(init.subrange(0, i) =~= cs.subrange(0, i));
        lemma_leaves_prefix(init, i);
    } else {
        assert(cs.subrange(0, i) =~= cs);
    }
}

/// The operator that an operator key names, if any.
pub fn parse_op(s: &String) -> (r: Option<Op>)
    ensures
        r == op_of(s@),
{
    if text_is(s, "$eq") {
        Some(Op::Eq)
    } else if text_is(s, "$ne") {
        Some(Op::Ne)
    } else if text_is(s, "$gt") {
        Some(Op::Gt)
    } else if text_is(s, "$gte") {
        Some(Op::Gte)
    } else if text_is(s, "$lt") {
        Some(Op::Lt)
    } else if text_is(s, "$lte") {
        Some(Op::Lte)
    } else if text_is(s, "$in") {
        Some(Op::In)
    } else {
        None
    }
}

/// Whether a value's type suits an operator.
pub fn value_fits(op: Op, v: &Literal) -> (r: bool)
    ensures
        r == fits(op, v@),
{
    match op {
        Op::Eq => true,
        Op::Ne => !v.is_array(),
        Op::In => v.is_array(),
        _ => match v {
            Literal::One(crate::literal::Scalar::Int(_)) => true,
            Literal::One(crate::literal::Scalar::Text(_)) => true,
            _ => false,
        },
    }
}

/// The SQL operator of a comparison.
pub fn sql_operator(op: Op, v: &Literal) -> (r: &'static str)
    ensures
        r@ == sql_op(op, v@),
{
    match op {
        Op::Eq => if v.is_array() {
            "@>"
        } else {
            "="
        },
        Op::Ne => "<>",
        Op::Gt => ">",
        Op::Gte => ">=",
        Op::Lt => "<",
        Op::Lte => "<=",
        Op::In => "<@",
    }
}

/// Checks a path and appends the expression that reads it.
fn push_path(out: &mut String, p: &Vec<String>) -> (ok: bool)
    ensures
        ok == path_ok(p@),
        ok ==> final(out)@ == old(out)@ + path_sql(p@),
{
    if p.len() == 0 {
        return false;
    }
    let mut joined = String::new();
    let mut i: usize = 0;
    while i < p.len()
        invariant
            0 <= i <= p.len(),
            p.len() > 0,
            joined@ == join_path(p@.subrange(0, i as int)),
        decreases p.len() - i,
    {
        if i > 0 {
            joined.append(",");
        }
        joined.append("\"");
        push_escaped(&mut joined, p[i].as_str(), true);
        joined.append("\"");
        proof {
            let q = p@.subrange(0, i + 1);
            assert(q.subrange(0, q.len() - 1) =~= p@.subrange(0, i as int));
            if i == 0 {
                assert(join_path(p@.subrange(0, 0)) =~= Seq::<char>::empty());
            }
            assert(joined@ =~= join_path(q));
        }
        i = i + 1;
    }
    assert(p@.subrange(0, p.len() as int) =~= p@);
    out.append("(metadata #> '{");
    out.append(joined.as_str());
    out.append("}')");
    assert(final(out)@ =~= old(out)@ + path_sql(p@));
    true
}

/// Compiles one comparison, binding its value to placeholder `n`.
pub fn compile_comparison(c: &Comparison, n: usize) -> (r: Result<Compiled, FilterError>)
    ensures
        match r {
            Ok(out) => {
                &&& comparison_ok(*c)
                &&& out.predicate@ == comparison_sql(*c, n as nat)
                &&& views(out.binds@) == seq![c.value@]
            },
            Err(e) => !comparison_ok(*c) && e == FilterError::MalformedFilter,
        },
{
    let op = match parse_op(&c.op) {
        Some(op) => op,
        None => return Err(FilterError::MalformedFilter),
    };
    if !value_fits(op, &c.value) {
        return Err(FilterError::MalformedFilter);
    }
    let mut predicate = String::new();
    if !push_path(&mut predicate, &c.path) {
        return Err(FilterError::MalformedFilter);
    }
    predicate.append(" ");
    predicate.append(sql_operator(op, &c.value));
    predicate.append(" $");
    push_decimal(&mut predicate, n as u64);
    let mut binds: Vec<Literal> = Vec::new();
    binds.push(c.value.copy());
    assert(predicate@ =~= comparison_sql(*c, n as nat));
    assert(views(binds@) =~= seq![c.value@]);
    Ok(Compiled { predicate, binds })
}

/// Compiles a filter whose first placeholder is `first`. Each comparison's value
/// is bound, never written into the text; placeholders follow depth-first,
/// left-to-right order.
pub fn compile_from(f: &Filter, first: usize) -> (r: Result<Compiled, FilterError>)
    requires
        first + leaves(*f).len() <= usize::MAX,
    ensures
        match r {
            Ok(out) => {
                &&& well_formed(*f)
                &&& out.predicate@ == render(*f, first as nat)
                &&& views(out.binds@) == leaves(*f)
            },
            Err(e) => !well_formed(*f) && e == FilterError::MalformedFilter,
        },
    decreases f,
{
    let cs = match f {
        Filter::Compare(c) => {
            return compile_comparison(c, first);
        },
        Filter::And(cs) => cs,
        Filter::Or(cs) => cs,
    };
    let sep = match f {
        Filter::Or(_) => " OR ",
        _ => " AND ",
    };
    assert(cs@ == children(*f));
    proof {
        reveal_strlit(" OR ");
        reveal_strlit(" AND ");
    }
    assert(render(*f, first as nat) == render_all(cs@, first as nat, sep@));
    assert(sep@ == separator(*f));
    if cs.len() == 0 {
        return Err(FilterError::MalformedFilter);
    }
    let mut predicate = String::new();
    let mut binds: Vec<Literal> = Vec::new();
    let mut i: usize = 0;
    while i < cs.len()
        invariant
            0 <= i <= cs.len(),
            cs.len() > 0,
            cs@ == children(*f),
            !(*f is Compare),
            sep@ == separator(*f),
            render(*f, first as nat) == render_all(cs@, first as nat, sep@),
            leaves(*f) == leaves_all(cs@),
            first + leaves_all(cs@).len() <= usize::MAX,
            predicate@ == render_all(cs@.subrange(0, i as int), first as nat, sep@),
            views(binds@) == leaves_all(cs@.subrange(0, i as int)),
            well_formed_all(cs@.subrange(0, i as int)),
            forall|k: int| 0 <= k < cs@.len() ==> decreases_to!(*f => #[trigger] cs@[k]),
        decreases cs.len() - i,
    {
        let ghost prefix = cs@.subrange(0, i as int);
        let ghost next = cs@.subrange(0, i + 1);
        assert(next.subrange(0, next.len() - 1) =~= prefix);
        assert(next[next.len() - 1] == cs@[i as int]);
        proof {
            lemma_leaves_prefix(cs@, i + 1);
        }
        let n = first + binds.len();
        assert(decreases_to!(*f => cs@[i as int]));
        match compile_from(&cs[i], n) {
            Err(e) => {
                proof {
                    lemma_well_formed_all(cs@);
                    assert(!well_formed(cs@[i as int]));
                    assert(!well_formed_all(cs@));

                }
                return Err(e);
            },
            Ok(c) => {
                let mut c = c;
                if i > 0 {
                    predicate.append(sep);
                }
                predicate.append("(");
                predicate.append(c.predicate.as_str());
                predicate.append(")");
                binds.append(&mut c.binds);
                assert(predicate@ =~= render_all(next, first as nat, sep@));
                assert(views(binds@) =~= leaves_all(next));
            },
        }
        i = i + 1;
    }
    assert(cs@.subrange(0, cs.len() as int) =~= cs@);
    Ok(Compiled { predicate, binds })
}

/// Compiles a filter with placeholders numbered from 1.
pub fn compile(f: &Filter) -> (r: Result<Compiled, FilterError>)
    requires
        leaves(*f).len() < usize::MAX,
    ensures
        match r {
            Ok(out) => {
                &&& well_formed(*f)
                &&& out.predicate@ == render(*f, 1)
                &&& views(out.binds@) == leaves(*f)
            },
            Err(e) => !well_formed(*f) && e == FilterError::MalformedFilter,
        },
{
    compile_from(f, 1)
}

} // verus!
