//! Search execution over an immutable index snapshot.
//!
//! A `SearchState` binds one point-in-time snapshot of a tantivy index,
//! compiles the query descriptor against its schema, runs ranked top-k
//! retrieval with a score override that attaches each document's external
//! key, and optionally deduplicates the ranked results by that key. The
//! engine's own calls stand behind trusted wrappers; everything around them —
//! the effective limit, the result handling, the deduplication — is verified.

use vstd::prelude::*;
use tantivy::collector::TopDocs;
use tantivy::schema::Value;
use crate::dedup::{DocAddr, SearchHit, spec_dedup, dedup_by_key, distinct_addrs,
    distinct_keys, entries_from, first_seen_ordered, greatest_addresses, keys_from,
    lemma_dedup_distinct, lemma_dedup_entries_from, lemma_dedup_first_seen_order,
    lemma_dedup_greatest_address, lemma_dedup_keys_from, lemma_dedup_len};

verus! {

#[verifier::external_type_specification]
#[verifier::external_body]
pub struct ExSearcher(tantivy::Searcher);

#[verifier::external_type_specification]
#[verifier::external_body]
pub struct ExIndex(tantivy::Index);

#[verifier::external_type_specification]
#[verifier::external_body]
pub struct ExSchema(tantivy::schema::Schema);

#[verifier::external_type_specification]
#[verifier::external_body]
pub struct ExQueryParser(tantivy::query::QueryParser);

#[verifier::external_type_specification]
#[verifier::external_body]
pub struct ExTantivyDocument(tantivy::TantivyDocument);

/// A compiled executable query. The underlying boxed query trait object
/// cannot be declared to the verifier, so it is carried opaquely.
#[verifier::external_body]
pub struct CompiledQuery {
    inner: Box<dyn tantivy::query::Query>,
}

/// The number of documents a snapshot holds.
pub uninterp spec fn snapshot_len(s: tantivy::Searcher) -> nat;

/// The number of segments a snapshot holds; document addresses resolve only
/// below this bound.
pub uninterp spec fn snapshot_segments(s: tantivy::Searcher) -> nat;

/// The snapshot's schema declares the named field as a fast 64-bit integer
/// column, and every segment of the snapshot carries a readable column for
/// it (the engine writes a segment's column only when some document of the
/// segment holds a value).
pub uninterp spec fn snapshot_keyed(s: tantivy::Searcher, field: Seq<char>) -> bool;

/// The number of documents one segment's store holds: local document ids
/// resolve below this bound.
pub uninterp spec fn segment_len(s: tantivy::Searcher, segment: u32) -> nat;

/// The key the snapshot's document store yields at (segment, doc): the
/// first value of the named field of the stored document when it is a
/// 64-bit integer, and nothing when the document holds no such value. The
/// snapshot is immutable, so this is fixed per address.
pub uninterp spec fn stored_key(s: tantivy::Searcher, segment: u32, doc: u32, field: Seq<char>) -> Option<i64>;

/// The value the key field's fast column yields for the document at
/// (segment, doc) of the snapshot: zero when the document stores no value
/// in it. Fixed per address on the immutable snapshot.
pub uninterp spec fn column_key(s: tantivy::Searcher, segment: u32, doc: u32, field: Seq<char>) -> i64;

/// The ranked sequence one retrieval yields: the top results for the
/// compiled query under the overridden (relevance, key) score, `offset`
/// skipped, at most `limit` kept. The snapshot is immutable and the engine
/// consults nothing else, so retrieval is a function of these arguments.
pub uninterp spec fn ranked_hits(s: tantivy::Searcher, query: CompiledQuery, limit: usize, offset: usize, field: Seq<char>) -> Seq<SearchHit>;

/// Every hit lies in the snapshot — segment ordinal and local document id in
/// range — and carries the key the fast column yields at its address.
pub open spec fn hits_wf(s: tantivy::Searcher, hits: Seq<SearchHit>, field: Seq<char>) -> bool {
    forall|i: int|
        0 <= i < hits.len() ==> (#[trigger] hits[i]).addr.segment < snapshot_segments(s)
            && hits[i].addr.doc < segment_len(s, hits[i].addr.segment) && hits[i].key
            == column_key(s, hits[i].addr.segment, hits[i].addr.doc, field)
}

/// How a search operation fails.
#[derive(Clone, Copy, PartialEq, Eq, Structural, Debug)]
pub enum SearchError {
    /// The schema contract is broken: the query descriptor does not compile
    /// against the schema, the key field is missing or not a fast 64-bit
    /// integer column, or a stored document lacks an integer key.
    SchemaInvariantViolation,
    /// A document address does not resolve within the bound snapshot.
    DocNotFound,
    /// The underlying engine failed on a supported path.
    Execution,
}

/// A query descriptor: the query text, an optional result limit, and an
/// optional offset into the ranked results.
pub struct SearchConfig {
    pub query: String,
    pub limit_rows: Option<usize>,
    pub offset_rows: Option<usize>,
}

/// The library's handle to one search index: the index itself, its schema,
/// and the name of the field holding each document's external key.
pub struct SearchIndex {
    pub index: tantivy::Index,
    pub schema: tantivy::schema::Schema,
    pub key_field_name: String,
}

/// Relies on tantivy's Index::reader and IndexReader::searcher: binds a
/// point-in-time snapshot of the index.
#[verifier::external_body]
fn bind_snapshot(index: &tantivy::Index) -> (r: Result<tantivy::Searcher, SearchError>)
    ensures
        r matches Err(e) ==> e == SearchError::Execution,
{
    match index.reader() {
        Ok(reader) => Ok(reader.searcher()),
        Err(_) => Err(SearchError::Execution),
    }
}

/// Relies on tantivy's QueryParser::for_index: a reusable parser over the
/// index with no default fields, so queries name their fields explicitly.
#[verifier::external_body]
fn make_query_parser(index: &tantivy::Index) -> (r: tantivy::query::QueryParser) {
    tantivy::query::QueryParser::for_index(index, Vec::new())
}

/// Relies on tantivy's Schema::clone: a schema is a shared handle, and its
/// clone is the same schema.
#[verifier::external_body]
fn clone_schema(schema: &tantivy::schema::Schema) -> (r: tantivy::schema::Schema)
    ensures
        r == *schema,
{
    schema.clone()
}

/// Relies on tantivy's QueryParser::parse_query: compiles the query text
/// into an executable query; rejection is a schema-invariant violation, not
/// a recoverable failure.
#[verifier::external_body]
fn compile_query(parser: &tantivy::query::QueryParser, text: &String) -> (r: Result<
    CompiledQuery,
    SearchError,
>)
    ensures
        r matches Err(e) ==> e == SearchError::SchemaInvariantViolation,
{
    match parser.parse_query(text.as_str()) {
        Ok(q) => Ok(CompiledQuery { inner: q }),
        Err(_) => Err(SearchError::SchemaInvariantViolation),
    }
}

/// Relies on tantivy's Schema::get_field, FieldType and the per-segment fast
/// field readers: reports whether the schema declares `field` as a fast
/// 64-bit integer column and every segment of the snapshot carries it.
#[verifier::external_body]
fn check_key_field(searcher: &tantivy::Searcher, field: &String) -> (r: bool)
    ensures
        r == snapshot_keyed(*searcher, field@),
{
    match searcher.schema().get_field(field.as_str()) {
        Ok(f) => {
            let ft = searcher.schema().get_field_entry(f).field_type();
            let declared = matches!(ft, tantivy::schema::FieldType::I64(_)) && ft.is_fast();
            declared && searcher.segment_readers().iter().all(
                |seg| seg.fast_fields().i64(field.as_str()).is_ok(),
            )
        },
        Err(_) => false,
    }
}

/// Relies on tantivy's Searcher::num_docs: the total document count over the
/// snapshot's segments.
#[verifier::external_body]
fn snapshot_num_docs(searcher: &tantivy::Searcher) -> (r: u64)
    ensures
        r as nat == snapshot_len(*searcher),
{
    searcher.num_docs()
}

/// Relies on tantivy's Searcher::segment_readers: the number of segments of
/// the snapshot.
#[verifier::external_body]
fn snapshot_segment_count(searcher: &tantivy::Searcher) -> (r: usize)
    ensures
        r as nat == snapshot_segments(*searcher),
{
    searcher.segment_readers().len()
}

/// Relies on tantivy's Searcher::search with a TopDocs collector whose score
/// is overridden per segment: at most `limit` results after skipping
/// `offset`, ranked by (relevance, key) descending, the documents pairwise
/// distinct, each address lying in one of the snapshot's segments below that
/// segment's document count, each key read from the key field's fast column
/// (zero standing in for a missing value). The snapshot is immutable and the
/// collector deterministic, so the ranked sequence is a function of the
/// arguments, named `ranked_hits`. The failure of a segment's column lookup
/// is excluded by the well-keyed precondition, which checks the same lookup;
/// the offset bound keeps the collector's window arithmetic in range.
#[verifier::external_body]
fn top_k_search(
    searcher: &tantivy::Searcher,
    query: &CompiledQuery,
    limit: usize,
    offset: usize,
    key_field: &String,
) -> (r: Result<Vec<SearchHit>, SearchError>)
    requires
        limit >= 1,
        offset <= usize::MAX - limit,
        snapshot_keyed(*searcher, key_field@),
    ensures
        r matches Err(e) ==> e == SearchError::Execution,
        r matches Ok(v) ==> v@ == ranked_hits(*searcher, *query, limit, offset, key_field@),
        r matches Ok(v) ==> v@.len() <= limit,
        r matches Ok(v) ==> forall|i: int|
            0 <= i < v@.len() ==> (#[trigger] v@[i]).key == column_key(
                *searcher,
                v@[i].addr.segment,
                v@[i].addr.doc,
                key_field@,
            ),
        r matches Ok(v) ==> hits_wf(*searcher, v@, key_field@),
        r matches Ok(v) ==> distinct_addrs(v@),
{
    let name = key_field.clone();
    let collector = TopDocs::with_limit(limit).and_offset(offset).tweak_score(
        move |seg: &tantivy::SegmentReader| {
            let keys = seg.fast_fields().i64(&name).expect("fast i64 key column").first_or_default_col(0);
            move |doc: tantivy::DocId, relevance: tantivy::Score| (relevance, keys.get_val(doc))
        },
    );
    match searcher.search(query.inner.as_ref(), &collector) {
        Ok(ranked) => Ok(ranked.into_iter().map(|(s, a)| SearchHit { key: s.1, addr: DocAddr { segment: a.segment_ord, doc: a.doc_id } }).collect()),
        Err(_) => Err(SearchError::Execution),
    }
}

/// Relies on tantivy's Searcher::doc and TantivyDocument::get_first: fetches
/// the stored document at the address and reads the first value of `field`
/// as a 64-bit integer. The snapshot is immutable, so what a local id
/// resolves to is fixed: an id beyond the segment's store is not found, and
/// below it the lookup yields exactly the stored key, or the
/// schema-violation failure when the stored document has no integer value
/// for the field.
#[verifier::external_body]
fn lookup_stored_key(
    searcher: &tantivy::Searcher,
    segment: u32,
    doc: u32,
    field: &String,
) -> (r: Result<i64, SearchError>)
    requires
        (segment as nat) < snapshot_segments(*searcher),
    ensures
        (doc as nat) >= segment_len(*searcher, segment) ==> r is Err,
        r matches Ok(k) ==> stored_key(*searcher, segment, doc, field@) == Some(k),
        r matches Err(e) ==> ((doc as nat) >= segment_len(*searcher, segment) ==> e
            == SearchError::DocNotFound),
        r matches Err(e) ==> ((doc as nat) < segment_len(*searcher, segment) ==> stored_key(
            *searcher,
            segment,
            doc,
            field@,
        ) is None && e == SearchError::SchemaInvariantViolation),
{
    if doc >= searcher.segment_readers()[segment as usize].max_doc() {
        return Err(SearchError::DocNotFound);
    }
    let addr = tantivy::DocAddress::new(segment, doc);
    let fetched: tantivy::TantivyDocument = searcher.doc(addr).map_err(|_| SearchError::SchemaInvariantViolation)?;
    let f = searcher.schema().get_field(field.as_str()).map_err(|_| SearchError::SchemaInvariantViolation)?;
    match fetched.get_first(f).and_then(|v| v.as_i64()) {
        Some(k) => Ok(k),
        None => Err(SearchError::SchemaInvariantViolation),
    }
}

/// Relies on tantivy's Searcher::doc: fetches the stored document at the
/// address. A local id beyond the segment's store is not found; a failure on
/// an id within the store is an engine failure, kept distinct from not-found.
#[verifier::external_body]
fn fetch_doc(searcher: &tantivy::Searcher, segment: u32, doc: u32) -> (r: Result<
    tantivy::TantivyDocument,
    SearchError,
>)
    requires
        (segment as nat) < snapshot_segments(*searcher),
    ensures
        (doc as nat) >= segment_len(*searcher, segment) ==> r is Err,
        r matches Err(e) ==> ((doc as nat) >= segment_len(*searcher, segment) ==> e
            == SearchError::DocNotFound),
        r matches Err(e) ==> ((doc as nat) < segment_len(*searcher, segment) ==> e
            == SearchError::Execution),
{
    if doc >= searcher.segment_readers()[segment as usize].max_doc() {
        return Err(SearchError::DocNotFound);
    }
    match searcher.doc::<tantivy::TantivyDocument>(tantivy::DocAddress::new(segment, doc)) {
        Ok(d) => Ok(d),
        Err(_) => Err(SearchError::Execution),
    }
}

/// The ranked-retrieval collector rejects a limit of zero, so the effective
/// limit is at least one: an explicit limit is used as given; otherwise the
/// snapshot's document count, or one when the snapshot is empty.
pub open spec fn spec_effective_limit(explicit: Option<usize>, num_docs: nat) -> nat {
    match explicit {
        Some(l) => l as nat,
        None => {
            if num_docs == 0 {
                1
            } else if num_docs > usize::MAX as nat {
                usize::MAX as nat
            } else {
                num_docs
            }
        },
    }
}

/// The offset handed to the ranked-retrieval collector: the explicit value,
/// or zero; capped so that offset and limit together stay within the address
/// space, which the collector's window arithmetic needs. The cap moves the
/// window only where it would already lie beyond every possible document.
pub open spec fn spec_effective_offset(explicit: Option<usize>, limit: nat) -> nat {
    let o: nat = match explicit {
        Some(x) => x as nat,
        None => 0,
    };
    if o + limit > usize::MAX as nat {
        (usize::MAX as nat - limit) as nat
    } else {
        o
    }
}

/// Computes the row limit handed to the ranked-retrieval collector.
pub fn effective_limit(explicit: Option<usize>, num_docs: u64) -> (r: usize)
    ensures
        r as nat == spec_effective_limit(explicit, num_docs as nat),
        explicit is None ==> r >= 1,
{
    match explicit {
        Some(l) => l,
        None => {
            if num_docs == 0 {
                1
            } else if num_docs > usize::MAX as u64 {
                usize::MAX
            } else {
                num_docs as usize
            }
        },
    }
}

/// With no explicit limit, the effective limit is the snapshot's document
/// count, or one when the snapshot is empty.
pub proof fn lemma_default_limit(num_docs: nat)
    ensures
        num_docs > 0 && num_docs <= usize::MAX as nat ==> spec_effective_limit(None, num_docs)
            == num_docs,
        num_docs == 0 ==> spec_effective_limit(None, num_docs) == 1,
{
}

/// One search invocation: a bound snapshot, the compiled query and its
/// reusable parser, the schema, the query descriptor, and the key field's
/// name. The snapshot never changes for the state's lifetime.
pub struct SearchState {
    pub schema: tantivy::schema::Schema,
    pub query: CompiledQuery,
    pub parser: tantivy::query::QueryParser,
    pub searcher: tantivy::Searcher,
    pub config: SearchConfig,
    pub key_field_name: String,
}

impl SearchState {
    /// Well-formed: the schema declares the key field as a fast 64-bit
    /// integer column, every segment of the bound snapshot carries it, and
    /// any explicit limit is at least one.
    pub open spec fn wf(self) -> bool {
        &&& snapshot_keyed(self.searcher, self.key_field_name@)
        &&& (self.config.limit_rows matches Some(l) ==> l >= 1)
    }

    /// Binds a fresh snapshot of the index and compiles the descriptor's
    /// query against its schema. A descriptor the schema cannot serve is a
    /// schema-invariant violation: fatal, never a fallback.
    pub fn new(search_index: &SearchIndex, config: SearchConfig) -> (r: Result<
        SearchState,
        SearchError,
    >)
        requires
            config.limit_rows matches Some(l) ==> l >= 1,
        ensures
            r matches Ok(state) ==> state.wf() && state.config == config
                && state.schema == search_index.schema
                && state.key_field_name@ == search_index.key_field_name@,
            r matches Err(e) ==> (e == SearchError::Execution
                || e == SearchError::SchemaInvariantViolation),
    {
        let searcher = match bind_snapshot(&search_index.index) {
            Ok(s) => s,
            Err(e) => return Err(e),
        };
        let key_field_name = search_index.key_field_name.clone();
        if !check_key_field(&searcher, &key_field_name) {
            return Err(SearchError::SchemaInvariantViolation);
        }
        let parser = make_query_parser(&search_index.index);
        let query = match compile_query(&parser, &config.query) {
            Ok(q) => q,
            Err(e) => return Err(e),
        };
        let schema = clone_schema(&search_index.schema);
        Ok(SearchState { schema, query, parser, searcher, config, key_field_name })
    }

    /// The effective limit of this state's descriptor against its snapshot.
    pub open spec fn spec_limit(self) -> nat {
        spec_effective_limit(self.config.limit_rows, snapshot_len(self.searcher))
    }

    /// The ranked sequence this state's retrieval yields: a function of the
    /// bound snapshot, the compiled query, the effective limit and offset,
    /// and the key field.
    pub open spec fn spec_ranked(self) -> Seq<SearchHit> {
        ranked_hits(
            self.searcher,
            self.query,
            self.spec_limit() as usize,
            spec_effective_offset(self.config.offset_rows, self.spec_limit()) as usize,
            self.key_field_name@,
        )
    }

    /// Runs ranked top-k retrieval over the bound snapshot: exactly the
    /// ranked sequence of the snapshot for this descriptor, at most the
    /// effective limit long, every address within the snapshot, every key
    /// the fast column's value at its address, the addresses pairwise
    /// distinct. Retrieval is deterministic: two runs on one state return
    /// the same sequence. Results may repeat a key when the snapshot holds
    /// several physical documents for one logical row.
    pub fn search(&self) -> (r: Result<Vec<SearchHit>, SearchError>)
        requires
            self.wf(),
        ensures
            r matches Err(e) ==> e == SearchError::Execution,
            r matches Ok(v) ==> {
                &&& v@ == self.spec_ranked()
                &&& v@.len() <= self.spec_limit()
                &&& hits_wf(self.searcher, v@, self.key_field_name@)
                &&& distinct_addrs(v@)
            },
    {
        let num_docs = snapshot_num_docs(&self.searcher);
        let limit = effective_limit(self.config.limit_rows, num_docs);
        let raw_offset = match self.config.offset_rows {
            Some(o) => o,
            None => 0,
        };
        let offset = if raw_offset > usize::MAX - limit {
            usize::MAX - limit
        } else {
            raw_offset
        };
        proof {
            assert(limit as nat == self.spec_limit());
            assert(limit == self.spec_limit() as usize);
            assert(offset as nat == spec_effective_offset(self.config.offset_rows, self.spec_limit()));
            assert(offset == spec_effective_offset(self.config.offset_rows, self.spec_limit()) as usize);
        }
        top_k_search(&self.searcher, &self.query, limit, offset, &self.key_field_name)
    }

    /// Runs the search and folds the ranked results by key: exactly the
    /// deduplicated form of this state's ranked sequence — every key at most
    /// once, mapped to the entry with the greatest address among those
    /// sharing it, keys in first-seen order, every entry drawn from the
    /// ranked sequence.
    pub fn search_dedup(&self) -> (r: Result<Vec<SearchHit>, SearchError>)
        requires
            self.wf(),
        ensures
            r matches Err(e) ==> e == SearchError::Execution,
            r matches Ok(v) ==> {
                &&& v@ == spec_dedup(self.spec_ranked())
                &&& distinct_keys(v@)
                &&& v@.len() <= self.spec_limit()
                &&& first_seen_ordered(v@, self.spec_ranked())
                &&& greatest_addresses(v@, self.spec_ranked())
                &&& entries_from(v@, self.spec_ranked())
                &&& keys_from(v@, self.spec_ranked())
                &&& hits_wf(self.searcher, v@, self.key_field_name@)
            },
    {
        let hits = match self.search() {
            Ok(h) => h,
            Err(e) => return Err(e),
        };
        let ghost raw = hits@;
        proof {
            lemma_dedup_distinct(raw);
            lemma_dedup_len(raw);
            lemma_dedup_first_seen_order(raw);
            lemma_dedup_greatest_address(raw);
            lemma_dedup_entries_from(raw);
            lemma_dedup_keys_from(raw);
        }
        let out = dedup_by_key(hits);
        proof {
            assert(out@ == spec_dedup(raw));
            assert forall|i: int| 0 <= i < out@.len() implies (#[trigger] out@[i]).addr.segment
                < snapshot_segments(self.searcher) && out@[i].addr.doc < segment_len(
                self.searcher,
                out@[i].addr.segment,
            ) && out@[i].key == column_key(
                self.searcher,
                out@[i].addr.segment,
                out@[i].addr.doc,
                self.key_field_name@,
            ) by {
                assert(raw.contains(out@[i]));
                let m = choose|m: int| 0 <= m < raw.len() && raw[m] == out@[i];
                assert(raw[m] == out@[i]);
            }
        }
        Ok(out)
    }

    /// Reads the external key stored for one document of the bound
    /// snapshot. An address outside the snapshot — a foreign segment or a
    /// local id beyond the segment's store — is a not-found failure; within
    /// the snapshot the stored key is returned, and a document without an
    /// integer key value is a schema-invariant violation.
    pub fn key_field_value(&self, doc_address: DocAddr) -> (r: Result<i64, SearchError>)
        ensures
            r matches Ok(k) ==> stored_key(
                self.searcher,
                doc_address.segment,
                doc_address.doc,
                self.key_field_name@,
            ) == Some(k),
            (doc_address.segment as nat) >= snapshot_segments(self.searcher) ==> (r matches Err(e)
                && e == SearchError::DocNotFound),
            (doc_address.segment as nat) < snapshot_segments(self.searcher) && (
            doc_address.doc as nat) >= segment_len(self.searcher, doc_address.segment) ==> (
            r matches Err(e) && e == SearchError::DocNotFound),
            (doc_address.segment as nat) < snapshot_segments(self.searcher) && (
            doc_address.doc as nat) < segment_len(self.searcher, doc_address.segment) ==> (
            r matches Err(e) ==> stored_key(
                self.searcher,
                doc_address.segment,
                doc_address.doc,
                self.key_field_name@,
            ) is None && e == SearchError::SchemaInvariantViolation),
    {
        let segments = snapshot_segment_count(&self.searcher);
        if (doc_address.segment as usize) < segments {
            lookup_stored_key(&self.searcher, doc_address.segment, doc_address.doc,
                &self.key_field_name)
        } else {
            Err(SearchError::DocNotFound)
        }
    }

    /// Fetches the stored field values of one document of the bound
    /// snapshot. An address that does not belong to it — a foreign segment
    /// or a local id beyond the segment's store — is not found; within the
    /// snapshot a fetch fails only with an engine failure, never not-found.
    pub fn doc(&self, doc_address: DocAddr) -> (r: Result<tantivy::TantivyDocument, SearchError>)
        ensures
            (doc_address.segment as nat) >= snapshot_segments(self.searcher) ==> (r matches Err(e)
                && e == SearchError::DocNotFound),
            (doc_address.segment as nat) < snapshot_segments(self.searcher) && (
            doc_address.doc as nat) >= segment_len(self.searcher, doc_address.segment) ==> (
            r matches Err(e) && e == SearchError::DocNotFound),
            (doc_address.segment as nat) < snapshot_segments(self.searcher) && (
            doc_address.doc as nat) < segment_len(self.searcher, doc_address.segment) ==> (
            r matches Err(e) ==> e == SearchError::Execution),
    {
        let segments = snapshot_segment_count(&self.searcher);
        if (doc_address.segment as usize) < segments {
            fetch_doc(&self.searcher, doc_address.segment, doc_address.doc)
        } else {
            Err(SearchError::DocNotFound)
        }
    }
}

} // verus!
