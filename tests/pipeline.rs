use pgml::filter::{Comparison, Filter};
use pgml::literal::{Literal, Scalar};
use pgml::pipeline::{Collection, PipelineError};
use pgml::query::{FullTextFilter, SearchFilter};

fn no_filter() -> SearchFilter {
    SearchFilter { metadata: None, full_text: None }
}

#[test]
fn collection_errors() {
    let mut collection = Collection::new("cetest0".to_string());
    // Test that we cannot generate tsvectors without upserting documents first
    assert!(collection.generate_tsvectors().is_err());
    // Test that we cannot generate chunks without upserting documents first
    assert!(collection.generate_chunks(None).is_err());
    // Test that we cannot generate embeddings without generating chunks first
    assert!(collection.generate_embeddings(None, None).is_err());
}

#[test]
fn chunks_need_documents() {
    let mut c = Collection::new("c".to_string());
    assert_eq!(c.generate_chunks(None), Err(PipelineError::PipelineOrderError));
    assert_eq!(c.upsert_documents(&vec![1, 2]), Ok(2));
    assert_eq!(c.generate_chunks(None), Ok(()));
}

#[test]
fn embeddings_need_chunks() {
    let mut c = Collection::new("c".to_string());
    c.upsert_documents(&vec![1]).unwrap();
    assert_eq!(c.generate_embeddings(None, None), Err(PipelineError::PipelineOrderError));
    assert_eq!(
        c.vector_search("q".to_string(), None, no_filter()).unwrap_err(),
        PipelineError::PipelineOrderError
    );
    c.generate_chunks(None).unwrap();
    assert_eq!(c.generate_embeddings(None, None), Ok(()));
    assert!(c.vector_search("q".to_string(), None, no_filter()).is_ok());
}

#[test]
fn tsvectors_need_documents_only() {
    let mut c = Collection::new("c".to_string());
    c.upsert_documents(&vec![5]).unwrap();
    assert_eq!(c.generate_tsvectors(), Ok(()));
}

#[test]
fn empty_upsert_leaves_no_documents() {
    let mut c = Collection::new("c".to_string());
    assert_eq!(c.upsert_documents(&vec![]), Ok(0));
    assert_eq!(c.generate_chunks(None), Err(PipelineError::PipelineOrderError));
}

#[test]
fn unregistered_names_are_configuration_errors() {
    let mut c = Collection::new("c".to_string());
    c.upsert_documents(&vec![1, 1]).unwrap();
    assert_eq!(
        c.generate_chunks(Some("nope".to_string())),
        Err(PipelineError::ConfigurationError)
    );
    c.register_text_splitter(Some("nope".to_string())).unwrap();
    assert_eq!(c.generate_chunks(Some("nope".to_string())), Ok(()));
    assert_eq!(
        c.generate_embeddings(Some("m".to_string()), None),
        Err(PipelineError::ConfigurationError)
    );
    c.register_model(Some("m".to_string())).unwrap();
    assert_eq!(c.generate_embeddings(Some("m".to_string()), None), Ok(()));
}

#[test]
fn can_vector_search() {
    let mut c = Collection::new("rctest0".to_string());
    c.upsert_documents(&vec![1, 2]).unwrap();
    c.register_text_splitter(None).unwrap();
    c.generate_chunks(None).unwrap();
    c.register_model(None).unwrap();
    c.generate_embeddings(None, None).unwrap();
    let q = c.vector_search("Here is a test".to_string(), None, no_filter()).unwrap();
    let s = q.build().unwrap();
    assert!(s.sql.contains("ORDER BY distance ASC"));
    assert_eq!(s.binds, vec![Literal::One(Scalar::Text("Here is a test".to_string()))]);
    c.archive();
    assert!(c.is_archived());
}

#[test]
fn end_to_end_then_archive() {
    let mut c = Collection::new("docs".to_string());
    assert_eq!(c.upsert_documents(&vec![1, 2]), Ok(2));
    c.register_text_splitter(None).unwrap();
    c.generate_chunks(None).unwrap();
    c.register_model(None).unwrap();
    c.generate_embeddings(None, None).unwrap();
    let filter = SearchFilter {
        metadata: Some(Filter::Compare(Comparison {
            path: vec!["uuid".to_string()],
            op: "$eq".to_string(),
            value: Literal::One(Scalar::Int(1)),
        })),
        full_text: None,
    };
    let q = c.vector_search("test query".to_string(), Some(3), filter).unwrap();
    let s = q.build().unwrap();
    assert_eq!(
        s.sql,
        "SELECT id, chunk, metadata, embedding <=> pgml.embed($1) AS distance FROM \"docs\".chunks WHERE ((metadata #> '{\"uuid\"}') = $2) ORDER BY distance ASC LIMIT 3"
    );
    c.archive();
    assert_eq!(c.upsert_documents(&vec![3]), Err(PipelineError::CollectionArchived));
    assert_eq!(c.generate_chunks(None), Err(PipelineError::CollectionArchived));
    assert_eq!(c.generate_embeddings(None, None), Err(PipelineError::CollectionArchived));
    assert_eq!(c.generate_tsvectors(), Err(PipelineError::CollectionArchived));
    assert_eq!(c.register_model(None), Err(PipelineError::CollectionArchived));
    assert_eq!(
        c.vector_search("q".to_string(), None, no_filter()).unwrap_err(),
        PipelineError::CollectionArchived
    );
    let fresh = Collection::new("docs".to_string());
    assert!(!fresh.is_archived());
    assert_eq!(fresh.name(), "docs");
    let mut copy = c.clone();
    assert_eq!(copy.generate_tsvectors(), Err(PipelineError::CollectionArchived));
    let _ = FullTextFilter { field: "text".to_string(), terms: "x".to_string() };
}
