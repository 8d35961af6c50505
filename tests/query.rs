use pgml::filter::{Comparison, Filter};
use pgml::literal::{Literal, Scalar};
use pgml::query::{FullTextFilter, Query, QueryError, SearchFilter};

fn uuid_eq(i: i64) -> Filter {
    Filter::Compare(Comparison {
        path: vec!["uuid".to_string()],
        op: "$eq".to_string(),
        value: Literal::One(Scalar::Int(i)),
    })
}

#[test]
fn query_builder() {
    let filter = SearchFilter {
        metadata: Some(Filter::Or(vec![
            uuid_eq(1),
            uuid_eq(2),
            uuid_eq(3),
            Filter::Compare(Comparison {
                path: vec!["category".to_string()],
                op: "$eq".to_string(),
                value: Literal::Many(vec![Scalar::Int(1), Scalar::Int(2), Scalar::Int(3)]),
            }),
        ])),
        full_text: Some(FullTextFilter {
            field: "text".to_string(),
            terms: "filler text".to_string(),
        }),
    };
    let query = Query::new("rqbmftest9".to_string())
        .vector_recall("test query".to_string())
        .filter(filter)
        .limit(10);
    let s = query.build().unwrap();
    assert_eq!(
        s.sql,
        "SELECT id, chunk, metadata, embedding <=> pgml.embed($1) AS distance FROM \"rqbmftest9\".chunks \
WHERE (((metadata #> '{\"uuid\"}') = $2) OR ((metadata #> '{\"uuid\"}') = $3) OR ((metadata #> '{\"uuid\"}') = $4) \
OR ((metadata #> '{\"category\"}') @> $5)) AND (tsvectors.\"text\" @@ plainto_tsquery($6)) \
ORDER BY distance ASC LIMIT 10"
    );
    assert_eq!(s.binds.len(), 6);
    assert_eq!(s.binds[0], Literal::One(Scalar::Text("test query".to_string())));
    assert_eq!(s.binds[5], Literal::One(Scalar::Text("filler text".to_string())));
    // building twice gives the same statement
    let again = query.build().unwrap();
    assert_eq!(again.sql, s.sql);
}

#[test]
fn full_text_only_starts_at_two() {
    let q = Query::new("c".to_string()).filter(SearchFilter {
        metadata: None,
        full_text: Some(FullTextFilter { field: "body".to_string(), terms: "x".to_string() }),
    });
    let s = q.build().unwrap();
    assert_eq!(
        s.sql,
        "SELECT id, chunk, metadata, embedding <=> pgml.embed($1) AS distance FROM \"c\".chunks WHERE (tsvectors.\"body\" @@ plainto_tsquery($2)) ORDER BY distance ASC LIMIT 10"
    );
    assert_eq!(s.binds[0], Literal::One(Scalar::Text(String::new())));
}

#[test]
fn names_are_quoted() {
    let q = Query::new("my \"docs\"".to_string()).filter(SearchFilter {
        metadata: None,
        full_text: Some(FullTextFilter { field: "title-x".to_string(), terms: "x".to_string() }),
    });
    let s = q.build().unwrap();
    assert_eq!(
        s.sql,
        r#"SELECT id, chunk, metadata, embedding <=> pgml.embed($1) AS distance FROM "my ""docs""".chunks WHERE (tsvectors."title-x" @@ plainto_tsquery($2)) ORDER BY distance ASC LIMIT 10"#
    );
}

#[test]
fn malformed_filters_in_query() {
    let q = Query::new("c".to_string()).filter(SearchFilter {
        metadata: Some(Filter::And(vec![])),
        full_text: None,
    });
    assert_eq!(q.build().unwrap_err(), QueryError::MalformedFilter);
}
