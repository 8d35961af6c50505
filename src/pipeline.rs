use vstd::prelude::*;

use crate::query::{Query, SearchFilter, DEFAULT_LIMIT};

verus! {

/// The name under which the built-in text splitter is registered.
pub const DEFAULT_SPLITTER: &'static str = "recursive_character";

/// The name under which the built-in embedding model is registered.
pub const DEFAULT_MODEL: &'static str = "intfloat/e5-small";

#[derive(Clone, Copy, Debug, PartialEq, Eq, Structural)]
pub enum PipelineError {
    /// A stage was invoked before its prerequisite stage.
    PipelineOrderError,
    /// A referenced splitter or model name is not registered.
    ConfigurationError,
    /// A filter given to a search does not compile.
    MalformedFilter,
    /// The collection was archived; no further operation applies to it.
    CollectionArchived,
}

/// The stage-dependency state of one named collection.
#[derive(Debug)]
pub struct Collection {
    name: String,
    document_ids: Vec<u64>,
    splitters: Vec<String>,
    models: Vec<String>,
    chunks: bool,
    embeddings: bool,
    tsvectors: bool,
    archived: bool,
}

/// What a collection's state is, abstractly.
pub struct CollectionV {
    pub name: Seq<char>,
    pub documents: Seq<u64>,
    pub splitters: Seq<Seq<char>>,
    pub models: Seq<Seq<char>>,
    pub chunks: bool,
    pub embeddings: bool,
    pub tsvectors: bool,
    pub archived: bool,
}

impl CollectionV {
    pub open spec fn has_documents(self) -> bool {
        self.documents.len() > 0
    }

    pub open spec fn has_splitter(self, name: Seq<char>) -> bool {
        self.splitters.contains(name)
    }

    pub open spec fn has_model(self, name: Seq<char>) -> bool {
        self.models.contains(name)
    }

    /// The lifecycle chain: chunks need documents, embeddings need chunks, text
    /// search vectors need documents; document ids are distinct.
    pub open spec fn wf(self) -> bool {
        &&& self.chunks ==> self.has_documents()
        &&& self.embeddings ==> self.chunks
        &&& self.tsvectors ==> self.has_documents()
        &&& self.documents.no_duplicates()
    }

    pub open spec fn with_chunks(self) -> CollectionV {
        CollectionV { chunks: true, ..self }
    }

    pub open spec fn with_embeddings(self) -> CollectionV {
        CollectionV { embeddings: true, ..self }
    }

    pub open spec fn with_tsvectors(self) -> CollectionV {
        CollectionV { tsvectors: true, ..self }
    }

    pub open spec fn with_archived(self) -> CollectionV {
        CollectionV { archived: true, ..self }
    }
}

impl View for Collection {
    type V = CollectionV;

    closed spec fn view(&self) -> CollectionV {
        CollectionV {
            name: self.name@,
            documents: self.document_ids@,
            splitters: self.splitters@.map_values(|s: String| s@),
            models: self.models@.map_values(|s: String| s@),
            chunks: self.chunks,
            embeddings: self.embeddings,
            tsvectors: self.tsvectors,
            archived: self.archived,
        }
    }
}

/// The name a stage uses: the given one, or the default.
pub open spec fn name_or(name: Option<String>, default: &str) -> Seq<char> {
    match name {
        Some(s) => s@,
        None => default@,
    }
}

impl Collection {
    /// Whether the state is well formed.
    pub open spec fn wf(&self) -> bool {
        self@.wf()
    }

    /// A fresh collection: no documents, the built-in splitter and model registered.
    pub fn new(name: String) -> (r: Collection)
        ensures
            r.wf(),
            r@.name == name@,
            r@.documents == Seq::<u64>::empty(),
            r@.splitters == seq![DEFAULT_SPLITTER@],
            r@.models == seq![DEFAULT_MODEL@],
            !r@.chunks && !r@.embeddings && !r@.tsvectors && !r@.archived,
    {
        let mut splitters: Vec<String> = Vec::new();
        splitters.push(String::from_str(DEFAULT_SPLITTER));
        let mut models: Vec<String> = Vec::new();
        models.push(String::from_str(DEFAULT_MODEL));
        let r = Collection {
            name,
            document_ids: Vec::new(),
            splitters,
            models,
            chunks: false,
            embeddings: false,
            tsvectors: false,
            archived: false,
        };
        assert(r@.splitters =~= seq![DEFAULT_SPLITTER@]);
        assert(r@.models =~= seq![DEFAULT_MODEL@]);
        assert(r@.documents =~= Seq::<u64>::empty());
        r
    }

    /// The collection's name, fixed at creation.
    pub fn name(&self) -> (r: &String)
        ensures
            r@ == self@.name,
    {
        &self.name
    }

    pub fn is_archived(&self) -> (r: bool)
        ensures
            r == self@.archived,
    {
        self.archived
    }

    /// Inserts the ids not yet present; the documents present are those before
    /// and those given. Returns how many documents were given.
    pub fn upsert_documents(&mut self, ids: &Vec<u64>) -> (r: Result<usize, PipelineError>)
        requires
            old(self).wf(),
        ensures
            final(self).wf(),
            old(self)@.archived ==> r == Err::<usize, PipelineError>(
                PipelineError::CollectionArchived,
            ) && final(self)@ == old(self)@,
            !old(self)@.archived ==> r == Ok::<usize, PipelineError>(ids.len()) && upserted(
                old(self)@,
                final(self)@,
                ids@,
            ),
    {
        if self.archived {
            return Err(PipelineError::CollectionArchived);
        }
        let ghost start = self.document_ids@;
        let mut i: usize = 0;
        while i < ids.len()
            invariant
                0 <= i <= ids.len(),
                self.document_ids@.no_duplicates(),
                start.len() > 0 ==> self.document_ids@.len() > 0,
                forall|x: u64|
                    #[trigger] self.document_ids@.contains(x) <==> (start.contains(x)
                        || ids@.subrange(0, i as int).contains(x)),
                self.name == old(self).name,
                self.splitters == old(self).splitters,
                self.models == old(self).models,
                self.chunks == old(self).chunks,
                self.embeddings == old(self).embeddings,
                self.tsvectors == old(self).tsvectors,
                self.archived == old(self).archived,
                start == old(self).document_ids@,
            decreases ids.len() - i,
        {
            let id = ids[i];
            let ghost before = self.document_ids@;
            let ghost seen = ids@.subrange(0, i as int);
            let ghost seen2 = ids@.subrange(0, i + 1);
            assert(seen2 =~= seen.push(id));
            if !contains_id(&self.document_ids, id) {
                self.document_ids.push(id);
                assert(self.document_ids@ == before.push(id));
                assert forall|x: u64| #[trigger] self.document_ids@.contains(x) <==> (before.contains(x)
                    || x == id) by {
                    if before.contains(x) {
                        let j = choose|j: int| 0 <= j < before.len() && before[j] == x;
                        assert(self.document_ids@[j] == x);
                    }
                    if x == id {
                        assert(self.document_ids@[before.len() as int] == x);
                    }
                }
                assert(self.document_ids@.len() > 0);
            }
            assert forall|x: u64| #[trigger] seen2.contains(x) <==> (seen.contains(x) || x == id) by {
                if seen.contains(x) {
                    let j = choose|j: int| 0 <= j < seen.len() && seen[j] == x;
                    assert(seen2[j] == x);
                }
                if x == id {
                    assert(seen2[seen.len() as int] == x);
                }
            }
            i = i + 1;
        }
        assert(ids@.subrange(0, ids.len() as int) =~= ids@);
        proof {
            if old(self)@.has_documents() {
                assert(self.document_ids@.len() > 0);
            }
        }
        Ok(ids.len())
    }

    /// Registers a text splitter under the given name, or the built-in one.
    pub fn register_text_splitter(&mut self, name: Option<String>) -> (r: Result<(), PipelineError>)
        requires
            old(self).wf(),
        ensures
            final(self).wf(),
            old(self)@.archived ==> r == Err::<(), PipelineError>(PipelineError::CollectionArchived)
                && final(self)@ == old(self)@,
            !old(self)@.archived ==> r == Ok::<(), PipelineError>(()) && final(self)@ == (CollectionV {
                splitters: registered(old(self)@.splitters, name_or(name, DEFAULT_SPLITTER)),
                ..old(self)@
            }),
    {
        if self.archived {
            return Err(PipelineError::CollectionArchived);
        }
        let n = match name {
            Some(s) => s,
            None => String::from_str(DEFAULT_SPLITTER),
        };
        let ghost nv = n@;
        if !contains_name(&self.splitters, &n) {
            self.splitters.push(n);
            assert(self.splitters@.map_values(|s: String| s@) =~= old(self)@.splitters.push(nv));
        }
        Ok(())
    }

    /// Registers an embedding model under the given name, or the built-in one.
    pub fn register_model(&mut self, name: Option<String>) -> (r: Result<(), PipelineError>)
        requires
            old(self).wf(),
        ensures
            final(self).wf(),
            old(self)@.archived ==> r == Err::<(), PipelineError>(PipelineError::CollectionArchived)
                && final(self)@ == old(self)@,
            !old(self)@.archived ==> r == Ok::<(), PipelineError>(()) && final(self)@ == (CollectionV {
                models: registered(old(self)@.models, name_or(name, DEFAULT_MODEL)),
                ..old(self)@
            }),
    {
        if self.archived {
            return Err(PipelineError::CollectionArchived);
        }
        let n = match name {
            Some(s) => s,
            None => String::from_str(DEFAULT_MODEL),
        };
        let ghost nv = n@;
        if !contains_name(&self.models, &n) {
            self.models.push(n);
            assert(self.models@.map_values(|s: String| s@) =~= old(self)@.models.push(nv));
        }
        Ok(())
    }

    /// Checks that chunks can be generated with the named splitter (the
    /// built-in one by default) and records that they exist.
    pub fn generate_chunks(&mut self, splitter_name: Option<String>) -> (r: Result<(), PipelineError>)
        requires
            old(self).wf(),
        ensures
            final(self).wf(),
            r == chunks_outcome(old(self)@, name_or(splitter_name, DEFAULT_SPLITTER)),
            (r is Ok) ==> final(self)@ == (old(self)@.with_chunks()),
            (r is Err) ==> final(self)@ == old(self)@,
    {
        if self.archived {
            return Err(PipelineError::CollectionArchived);
        }
        if self.document_ids.len() == 0 {
            return Err(PipelineError::PipelineOrderError);
        }
        let n = match splitter_name {
            Some(s) => s,
            None => String::from_str(DEFAULT_SPLITTER),
        };
        if !contains_name(&self.splitters, &n) {
            return Err(PipelineError::ConfigurationError);
        }
        self.chunks = true;
        Ok(())
    }

    /// Checks that embeddings can be generated with the named model over the
    /// chunks of the named splitter (the built-in ones by default) and records
    /// that they exist.
    pub fn generate_embeddings(
        &mut self,
        model_name: Option<String>,
        splitter_name: Option<String>,
    ) -> (r: Result<(), PipelineError>)
        requires
            old(self).wf(),
        ensures
            final(self).wf(),
            r == embeddings_outcome(
                old(self)@,
                name_or(model_name, DEFAULT_MODEL),
                name_or(splitter_name, DEFAULT_SPLITTER),
            ),
            (r is Ok) ==> final(self)@ == (old(self)@.with_embeddings()),
            (r is Err) ==> final(self)@ == old(self)@,
    {
        if self.archived {
            return Err(PipelineError::CollectionArchived);
        }
        if !self.chunks {
            return Err(PipelineError::PipelineOrderError);
        }
        let m = match model_name {
            Some(s) => s,
            None => String::from_str(DEFAULT_MODEL),
        };
        let n = match splitter_name {
            Some(s) => s,
            None => String::from_str(DEFAULT_SPLITTER),
        };
        if !contains_name(&self.models, &m) || !contains_name(&self.splitters, &n) {
            return Err(PipelineError::ConfigurationError);
        }
        self.embeddings = true;
        Ok(())
    }

    /// Checks that text search vectors can be generated, which needs documents
    /// only, and records that they exist.
    pub fn generate_tsvectors(&mut self) -> (r: Result<(), PipelineError>)
        requires
            old(self).wf(),
        ensures
            final(self).wf(),
            r == tsvectors_outcome(old(self)@),
            (r is Ok) ==> final(self)@ == (old(self)@.with_tsvectors()),
            (r is Err) ==> final(self)@ == old(self)@,
    {
        if self.archived {
            return Err(PipelineError::CollectionArchived);
        }
        if self.document_ids.len() == 0 {
            return Err(PipelineError::PipelineOrderError);
        }
        self.tsvectors = true;
        Ok(())
    }

    /// The search request for `query_text` on this collection, once it has
    /// embeddings: never a search over missing embeddings.
    pub fn vector_search(
        &self,
        query_text: String,
        top_k: Option<u64>,
        filter: SearchFilter,
    ) -> (r: Result<Query, PipelineError>)
        requires
            self.wf(),
        ensures
            (search_outcome(self@) is Err) ==> r == Err::<Query, PipelineError>(
                search_outcome(self@)->Err_0,
            ),
            (search_outcome(self@) is Ok) ==> (r matches Ok(q) && {
                &&& q.collection@ == self@.name
                &&& q.recall == query_text
                &&& q.metadata == filter.metadata
                &&& q.full_text == filter.full_text
                &&& q.limit == match top_k {
                    Some(k) => k,
                    None => DEFAULT_LIMIT,
                }
            }),
    {
        if self.archived {
            return Err(PipelineError::CollectionArchived);
        }
        if !self.embeddings {
            return Err(PipelineError::PipelineOrderError);
        }
        let limit = match top_k {
            Some(k) => k,
            None => DEFAULT_LIMIT,
        };
        Ok(Query::new(self.name.clone()).vector_recall(query_text).filter(filter).limit(limit))
    }

    /// Archives the collection: every later operation on it fails.
    pub fn archive(&mut self)
        requires
            old(self).wf(),
        ensures
            final(self).wf(),
            final(self)@ == (old(self)@.with_archived()),
    {
        self.archived = true;
    }
}

/// The state after an upsert of `ids`: the documents present are those before
/// and those given; nothing else changes.
pub open spec fn upserted(before: CollectionV, after: CollectionV, ids: Seq<u64>) -> bool {
    &&& after.name == before.name
    &&& after.splitters == before.splitters
    &&& after.models == before.models
    &&& after.chunks == before.chunks
    &&& after.embeddings == before.embeddings
    &&& after.tsvectors == before.tsvectors
    &&& after.archived == before.archived
    &&& forall|x: u64| #[trigger]
        after.documents.contains(x) <==> (before.documents.contains(x) || ids.contains(x))
}

/// The outcome of generating chunks with the named splitter.
pub open spec fn chunks_outcome(c: CollectionV, splitter: Seq<char>) -> Result<(), PipelineError> {
    if c.archived {
        Err(PipelineError::CollectionArchived)
    } else if !c.has_documents() {
        Err(PipelineError::PipelineOrderError)
    } else if !c.has_splitter(splitter) {
        Err(PipelineError::ConfigurationError)
    } else {
        Ok(())
    }
}

/// The outcome of generating embeddings with the named model over the chunks
/// of the named splitter.
pub open spec fn embeddings_outcome(c: CollectionV, model: Seq<char>, splitter: Seq<char>) -> Result<
    (),
    PipelineError,
> {
    if c.archived {
        Err(PipelineError::CollectionArchived)
    } else if !c.chunks {
        Err(PipelineError::PipelineOrderError)
    } else if !c.has_model(model) || !c.has_splitter(splitter) {
        Err(PipelineError::ConfigurationError)
    } else {
        Ok(())
    }
}

/// The outcome of generating text search vectors.
pub open spec fn tsvectors_outcome(c: CollectionV) -> Result<(), PipelineError> {
    if c.archived {
        Err(PipelineError::CollectionArchived)
    } else if !c.has_documents() {
        Err(PipelineError::PipelineOrderError)
    } else {
        Ok(())
    }
}

/// The outcome of a search: it needs embeddings.
pub open spec fn search_outcome(c: CollectionV) -> Result<(), PipelineError> {
    if c.archived {
        Err(PipelineError::CollectionArchived)
    } else if !c.embeddings {
        Err(PipelineError::PipelineOrderError)
    } else {
        Ok(())
    }

}

/// On a fresh collection chunk generation fails for want of documents, whatever
/// the splitter; after an upsert of at least one document it succeeds with the
/// built-in splitter.
pub proof fn lemma_chunks_need_documents(
    fresh: CollectionV,
    after: CollectionV,
    ids: Seq<u64>,
    splitter: Seq<char>,
)
    requires
        fresh.documents.len() == 0,
        fresh.splitters == seq![DEFAULT_SPLITTER@],
        !fresh.archived,
        upserted(fresh, after, ids),
        ids.len() > 0,
    ensures
        chunks_outcome(fresh, splitter) == Err::<(), PipelineError>(
            PipelineError::PipelineOrderError,
        ),
        chunks_outcome(after, DEFAULT_SPLITTER@) == Ok::<(), PipelineError>(()),
{
    assert(ids.contains(ids[0]));
    assert(after.documents.contains(ids[0]));
    assert(after.splitters[0] == DEFAULT_SPLITTER@);
}

/// Embedding generation fails while no chunks exist; once chunk generation has
/// succeeded it succeeds with any registered model over that splitter's chunks,
/// and a search is then allowed.
pub proof fn lemma_embeddings_need_chunks(c: CollectionV, model: Seq<char>, splitter: Seq<char>)
    requires
        c.wf(),
        !c.archived,
        !c.chunks,
    ensures
        embeddings_outcome(c, model, splitter) == Err::<(), PipelineError>(
            PipelineError::PipelineOrderError,
        ),
        search_outcome(c) == Err::<(), PipelineError>(PipelineError::PipelineOrderError),
        chunks_outcome(c, splitter) is Ok && c.has_model(model) ==> {
            &&& embeddings_outcome(c.with_chunks(), model, splitter) is Ok
            &&& search_outcome(c.with_chunks().with_embeddings()) is Ok
        },
{
}

/// Text search vectors need documents only: neither chunks nor embeddings.
pub proof fn lemma_tsvectors_need_documents_only(c: CollectionV)
    requires
        !c.archived,
        c.has_documents(),
    ensures
        tsvectors_outcome(c) == Ok::<(), PipelineError>(()),
{
}

/// After archiving, every stage fails with `CollectionArchived`.
pub proof fn lemma_archived_rejects(c: CollectionV, model: Seq<char>, splitter: Seq<char>)
    ensures
        chunks_outcome(c.with_archived(), splitter) == Err::<(), PipelineError>(
            PipelineError::CollectionArchived,
        ),
        embeddings_outcome(c.with_archived(), model, splitter) == Err::<(), PipelineError>(
            PipelineError::CollectionArchived,
        ),
        tsvectors_outcome(c.with_archived()) == Err::<(), PipelineError>(
            PipelineError::CollectionArchived,
        ),
        search_outcome(c.with_archived()) == Err::<(), PipelineError>(
            PipelineError::CollectionArchived,
        ),
{
}

impl Clone for Collection {
    /// A copy in the same state.
    fn clone(&self) -> (r: Collection)
        ensures
            r@ == self@,
    {
        Collection {
            name: self.name.clone(),
            document_ids: copy_ids(&self.document_ids),
            splitters: copy_names(&self.splitters),
            models: copy_names(&self.models),
            chunks: self.chunks,
            embeddings: self.embeddings,
            tsvectors: self.tsvectors,
            archived: self.archived,
        }
    }
}

fn copy_ids(v: &Vec<u64>) -> (r: Vec<u64>)
    ensures
        r@ == v@,
{
    let mut out: Vec<u64> = Vec::new();
    let mut i: usize = 0;
    while i < v.len()
        invariant
            i <= v.len(),
            out@ == v@.subrange(0, i as int),
        decreases v.len() - i,
    {
        out.push(v[i]);
        assert(out@ =~= v@.subrange(0, i + 1));
        i = i + 1;
    }
    assert(v@.subrange(0, v.len() as int) =~= v@);
    out
}

fn copy_names(v: &Vec<String>) -> (r: Vec<String>)
    ensures
        r@.map_values(|s: String| s@) == v@.map_values(|s: String| s@),
{
    let mut out: Vec<String> = Vec::new();
    let mut i: usize = 0;
    while i < v.len()
        invariant
            i <= v.len(),
            out.len() == i,
            forall|j: int| 0 <= j < i ==> (#[trigger] out@[j])@ == v@[j]@,
        decreases v.len() - i,
    {
        out.push(v[i].clone());
        i = i + 1;
    }
    assert(out@.map_values(|s: String| s@) =~= v@.map_values(|s: String| s@));
    out
}

/// A registry after registering `name`: unchanged if it holds the name already.
pub open spec fn registered(names: Seq<Seq<char>>, name: Seq<char>) -> Seq<Seq<char>> {
    if names.contains(name) {
        names
    } else {
        names.push(name)
    }
}

fn contains_id(v: &Vec<u64>, x: u64) -> (r: bool)
    ensures
        r == v@.contains(x),
{
    let mut i: usize = 0;
    while i < v.len()
        invariant
            0 <= i <= v.len(),
            forall|j: int| 0 <= j < i ==> v@[j] != x,
        decreases v.len() - i,
    {
        if v[i] == x {
            assert(v@[i as int] == x);
            return true;
        }
        i = i + 1;
    }
    false
}

fn contains_name(v: &Vec<String>, x: &String) -> (r: bool)
    ensures
        r == v@.map_values(|s: String| s@).contains(x@),
{
    let ghost names = v@.map_values(|s: String| s@);
    let mut i: usize = 0;
    while i < v.len()
        invariant
            0 <= i <= v.len(),
            names == v@.map_values(|s: String| s@),
            forall|j: int| 0 <= j < i ==> names[j] != x@,
        decreases v.len() - i,
    {
        if v[i] == *x {
            assert(names[i as int] == x@);
            return true;
        }
        i = i + 1;
    }
    false
}

} // verus!
