use pgml::filter::{compile, compile_from, Comparison, Filter, FilterError};
use pgml::literal::{Literal, Scalar};

fn leaf(path: &[&str], op: &str, value: Literal) -> Filter {
    Filter::Compare(Comparison {
        path: path.iter().map(|s| s.to_string()).collect(),
        op: op.to_string(),
        value,
    })
}

fn int_lit(i: i64) -> Literal {
    Literal::One(Scalar::Int(i))
}

fn ints(v: &[i64]) -> Literal {
    Literal::Many(v.iter().map(|i| Scalar::Int(*i)).collect())
}

#[test]
fn eq_scalar_is_equality() {
    let c = compile(&leaf(&["uuid"], "$eq", int_lit(1))).unwrap();
    assert_eq!(c.predicate, "(metadata #> '{\"uuid\"}') = $1");
    assert_eq!(c.binds, vec![int_lit(1)]);
}

#[test]
fn eq_array_is_containment() {
    let c = compile(&leaf(&["category"], "$eq", ints(&[1, 2, 3]))).unwrap();
    assert_eq!(c.predicate, "(metadata #> '{\"category\"}') @> $1");
    assert_eq!(c.binds, vec![ints(&[1, 2, 3])]);
}

#[test]
fn other_operators_map_one_to_one() {
    let cases = [
        ("$ne", int_lit(4), "<>"),
        ("$gt", int_lit(4), ">"),
        ("$gte", int_lit(4), ">="),
        ("$lt", int_lit(4), "<"),
        ("$lte", int_lit(4), "<="),
        ("$in", ints(&[4, 5]), "<@"),
    ];
    for (op, v, sql) in cases {
        let c = compile(&leaf(&["a", "b"], op, v)).unwrap();
        assert_eq!(c.predicate, format!("(metadata #> '{{\"a\",\"b\"}}') {} $1", sql));
    }
}

#[test]
fn placeholders_follow_depth_first_order() {
    let f = Filter::And(vec![
        Filter::Or(vec![
            leaf(&["x"], "$eq", int_lit(10)),
            leaf(&["y"], "$gt", Literal::One(Scalar::Text("b".to_string()))),
        ]),
        leaf(&["z"], "$lte", int_lit(30)),
    ]);
    let c = compile(&f).unwrap();
    assert_eq!(
        c.predicate,
        "(((metadata #> '{\"x\"}') = $1) OR ((metadata #> '{\"y\"}') > $2)) AND ((metadata #> '{\"z\"}') <= $3)"
    );
    assert_eq!(
        c.binds,
        vec![int_lit(10), Literal::One(Scalar::Text("b".to_string())), int_lit(30)]
    );
}

#[test]
fn placeholders_past_nine_have_two_digits() {
    let children: Vec<Filter> = (0..12).map(|i| leaf(&["k"], "$eq", int_lit(i))).collect();
    let c = compile(&Filter::Or(children)).unwrap();
    assert!(c.predicate.ends_with("((metadata #> '{\"k\"}') = $12)"));
    assert!(c.predicate.contains("= $9) OR ((metadata #> '{\"k\"}') = $10)"));
    assert_eq!(c.binds.len(), 12);
}

#[test]
fn compile_from_offsets_placeholders() {
    let c = compile_from(&leaf(&["uuid"], "$eq", int_lit(1)), 7).unwrap();
    assert_eq!(c.predicate, "(metadata #> '{\"uuid\"}') = $7");
}

#[test]
fn binds_reproduce_tree_values_in_order() {
    let values = vec![
        Literal::One(Scalar::Null),
        Literal::One(Scalar::Bool(true)),
        ints(&[1, 2]),
        Literal::One(Scalar::Text("t".to_string())),
    ];
    let f = Filter::Or(vec![
        leaf(&["a"], "$eq", Literal::One(Scalar::Null)),
        Filter::And(vec![
            leaf(&["b"], "$ne", Literal::One(Scalar::Bool(true))),
            leaf(&["c"], "$in", ints(&[1, 2])),
        ]),
        leaf(&["d"], "$lt", Literal::One(Scalar::Text("t".to_string()))),
    ]);
    let c = compile(&f).unwrap();
    assert_eq!(c.binds, values);
}

#[test]
fn unknown_operator_is_malformed_at_any_depth() {
    assert_eq!(
        compile(&leaf(&["a"], "$foo", int_lit(1))).unwrap_err(),
        FilterError::MalformedFilter
    );
    let deep = Filter::And(vec![
        leaf(&["a"], "$eq", int_lit(1)),
        Filter::Or(vec![
            leaf(&["b"], "$eq", int_lit(2)),
            Filter::And(vec![leaf(&["c"], "$foo", int_lit(3))]),
        ]),
    ]);
    assert_eq!(compile(&deep).unwrap_err(), FilterError::MalformedFilter);
}

#[test]
fn empty_combinator_is_malformed() {
    assert_eq!(compile(&Filter::And(vec![])).unwrap_err(), FilterError::MalformedFilter);
    assert_eq!(compile(&Filter::Or(vec![])).unwrap_err(), FilterError::MalformedFilter);
}

#[test]
fn type_mismatch_is_malformed() {
    assert!(compile(&leaf(&["a"], "$gt", ints(&[1]))).is_err());
    assert!(compile(&leaf(&["a"], "$gt", Literal::One(Scalar::Null))).is_err());
    assert!(compile(&leaf(&["a"], "$in", int_lit(1))).is_err());
    assert!(compile(&leaf(&["a"], "$ne", ints(&[1]))).is_err());
}

#[test]
fn empty_path_is_malformed() {
    assert_eq!(compile(&leaf(&[], "$eq", int_lit(1))).unwrap_err(), FilterError::MalformedFilter);
}

#[test]
fn any_key_is_accepted_and_escaped() {
    let c = compile(&leaf(&["a-b"], "$eq", int_lit(1))).unwrap();
    assert_eq!(c.predicate, r#"(metadata #> '{"a-b"}') = $1"#);
    let c = compile(&leaf(&["first-name", "prénom"], "$eq", ints(&[1]))).unwrap();
    assert_eq!(c.predicate, r#"(metadata #> '{"first-name","prénom"}') @> $1"#);
    let c = compile(&leaf(&["it's", "say \"hi\"", "back\\slash", ""], "$ne", int_lit(2))).unwrap();
    assert_eq!(
        c.predicate,
        r#"(metadata #> '{"it''s","say \"hi\"","back\\slash",""}') <> $1"#
    );
}
