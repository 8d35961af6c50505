use vstd::prelude::*;

use crate::filter::{compile_from, leaves, render, views, Filter};
use crate::literal::{Literal, LiteralV, Scalar, ScalarV};
use crate::sql::{decimal, push_decimal, push_quoted_ident, quote_ident};

verus! {

/// The number of rows a query returns unless told otherwise.
pub const DEFAULT_LIMIT: u64 = 10;

/// A full-text condition: the text search vector of `field` matches `terms`.
#[derive(Debug)]
pub struct FullTextFilter {
    pub field: String,
    pub terms: String,
}

/// The filter of a search: a metadata tree and a full-text condition, each optional.
#[derive(Debug)]
pub struct SearchFilter {
    pub metadata: Option<Filter>,
    pub full_text: Option<FullTextFilter>,
}

#[derive(Clone, Copy, Debug, PartialEq, Eq, Structural)]
pub enum QueryError {
    /// The metadata filter does not compile.
    MalformedFilter,
}

/// A search request. Each configuring method consumes the request and returns
/// the configured one.
#[derive(Debug)]
pub struct Query {
    pub collection: String,
    pub recall: String,
    pub metadata: Option<Filter>,
    pub full_text: Option<FullTextFilter>,
    pub limit: u64,
}

/// A statement and its positional bind values.
#[derive(Debug)]
pub struct Statement {
    pub sql: String,
    pub binds: Vec<Literal>,
}

/// The number of values the metadata filter binds.
pub open spec fn metadata_len(q: Query) -> nat {
    match q.metadata {
        Some(m) => leaves(m).len(),
        None => 0,
    }
}

pub open spec fn full_text_sql(t: FullTextFilter, n: nat) -> Seq<char> {
    "tsvectors."@ + quote_ident(t.field@) + " @@ plainto_tsquery($"@ + decimal(n) + ")"@
}

/// The condition of a query: the metadata predicate, whose placeholders start
/// at 2, then the full-text condition.
pub open spec fn where_sql(q: Query) -> Seq<char> {
    match (q.metadata, q.full_text) {
        (None, None) => Seq::empty(),
        (Some(m), None) => " WHERE ("@ + render(m, 2) + ")"@,
        (None, Some(t)) => " WHERE ("@ + full_text_sql(t, 2) + ")"@,
        (Some(m), Some(t)) => " WHERE ("@ + render(m, 2) + ")"@ + " AND ("@ + full_text_sql(
            t,
            2 + leaves(m).len(),
        ) + ")"@,
    }
}

/// The statement text: rows ranked by ascending distance to the embedded recall text.
pub open spec fn query_sql(q: Query) -> Seq<char> {
    "SELECT id, chunk, metadata, embedding <=> pgml.embed($1) AS distance FROM "@ + quote_ident(
        q.collection@,
    ) + ".chunks"@ + where_sql(q) + " ORDER BY distance ASC LIMIT "@ + decimal(q.limit as nat)
}

/// The bind values: the recall text, the metadata values, then the full-text terms.
pub open spec fn query_binds(q: Query) -> Seq<LiteralV> {
    seq![LiteralV::One(ScalarV::Text(q.recall@))] + match q.metadata {
        Some(m) => leaves(m),
        None => Seq::empty(),
    } + match q.full_text {
        Some(t) => seq![LiteralV::One(ScalarV::Text(t.terms@))],
        None => Seq::empty(),
    }
}

pub open spec fn filters_ok(q: Query) -> bool {
    match q.metadata {
        Some(m) => crate::filter::well_formed(m),
        None => true,
    }
}

impl Query {
    /// A request on a collection with an empty recall text, no filter and the
    /// default limit.
    pub fn new(collection: String) -> (r: Query)
        ensures
            r.collection@ == collection@,
            r.recall@ == Seq::<char>::empty(),
            r.metadata is None,
            r.full_text is None,
            r.limit == DEFAULT_LIMIT,
    {
        Query {
            collection,
            recall: String::new(),
            metadata: None,
            full_text: None,
            limit: DEFAULT_LIMIT,
        }
    }

    /// The request ranked by distance to `text`.
    pub fn vector_recall(self, text: String) -> (r: Query)
        ensures
            r == (Query { recall: text, ..self }),
    {
        Query { recall: text, ..self }
    }

    /// The request with its filter replaced.
    pub fn filter(self, f: SearchFilter) -> (r: Query)
        ensures
            r == (Query { metadata: f.metadata, full_text: f.full_text, ..self }),
    {
        Query { metadata: f.metadata, full_text: f.full_text, ..self }
    }

    /// The request with its row limit replaced.
    pub fn limit(self, n: u64) -> (r: Query)
        ensures
            r == (Query { limit: n, ..self }),
    {
        Query { limit: n, ..self }
    }

    /// The statement of this request and its bind values.
    pub fn build(&self) -> (r: Result<Statement, QueryError>)
        requires
            metadata_len(*self) + 3 <= usize::MAX,
        ensures
            match r {
                Ok(s) => {
                    &&& filters_ok(*self)
                    &&& s.sql@ == query_sql(*self)
                    &&& views(s.binds@) == query_binds(*self)
                },
                Err(e) => !filters_ok(*self) && e == QueryError::MalformedFilter,
            },
    {
        let mut sql = String::from_str(
            "SELECT id, chunk, metadata, embedding <=> pgml.embed($1) AS distance FROM ",
        );
        push_quoted_ident(&mut sql, self.collection.as_str());
        sql.append(".chunks");
        let ghost head = sql@;
        let mut binds: Vec<Literal> = Vec::new();
        binds.push(Literal::One(Scalar::Text(self.recall.clone())));
        match &self.metadata {
            Some(m) => match compile_from(m, 2) {
                Err(_) => return Err(QueryError::MalformedFilter),
                Ok(c) => {
                    let mut c = c;
                    sql.append(" WHERE (");
                    sql.append(c.predicate.as_str());
                    sql.append(")");
                    binds.append(&mut c.binds);
                },
            },
            None => {},
        }
        let ghost mid = sql@;
        assert(mid == head + match self.metadata {
            Some(m) => " WHERE ("@ + render(m, 2) + ")"@,
            None => Seq::empty(),
        });
        match &self.full_text {
            Some(t) => {
                if self.metadata.is_some() {
                    sql.append(" AND (");
                } else {
                    sql.append(" WHERE (");
                }
                sql.append("tsvectors.");
                push_quoted_ident(&mut sql, t.field.as_str());
                sql.append(" @@ plainto_tsquery($");
                push_decimal(&mut sql, (binds.len() + 1) as u64);
                sql.append(")");
                sql.append(")");
                binds.push(Literal::One(Scalar::Text(t.terms.clone())));
            },
            None => {},
        }
        sql.append(" ORDER BY distance ASC LIMIT ");
        push_decimal(&mut sql, self.limit);
        assert(sql@ =~= query_sql(*self));
        assert(views(binds@) =~= query_binds(*self));
        Ok(Statement { sql, binds })
    }
}

} // verus!
