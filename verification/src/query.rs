//! Reads at a timestamp: the bundling of graph files into one document, and
//! the three cache tiers in front of parsing and query evaluation.

use std::hash::Hash;

use moka::sync::Cache;
use oxigraph::model::{TermRef, Triple, Variable};
use oxigraph::sparql::results::{
    QueryResultsFormat, QueryResultsSerializer, WriterSolutionsSerializer,
};
use oxigraph::sparql::{
    PreparedSparqlQuery, QueryEvaluationError, QueryResults, QuerySolution, SparqlEvaluator,
    SparqlSyntaxError,
};
use oxigraph::store::Store;
use vstd::prelude::*;

use crate::error::Error;
use crate::graphs::prettifies;
use crate::rdf::{empty_store, parse_turtle_bulk, to_turtle, turtle_parses, RdfPrettifier};
use crate::text::chars_of;

verus! {

/// The index of the first line break of `s` at or after `from`; the length
/// of `s` if there is none.
pub open spec fn line_break(s: Seq<char>, from: int) -> int
    decreases s.len() - from,
{
    if 0 <= from < s.len() && s[from] != '\n' {
        line_break(s, from + 1)
    } else {
        from
    }
}

/// Whether `s` has a line break.
pub open spec fn has_line_break(s: Seq<char>) -> bool {
    line_break(s, 0) < s.len()
}

/// The first line of `s`, which holds the prefixes of a graph file, without
/// its line break.
pub open spec fn prefix_part(s: Seq<char>) -> Seq<char> {
    s.subrange(0, line_break(s, 0))
}

/// What follows the first line break of `s`: the body of a graph file. It
/// is empty where `s` has no line break.
pub open spec fn graph_part(s: Seq<char>) -> Seq<char> {
    if has_line_break(s) {
        s.subrange(line_break(s, 0) + 1, s.len() as int)
    } else {
        Seq::empty()
    }
}

/// The prefix part of each file, in the order of the files.
pub open spec fn prefix_parts(files: Seq<Seq<char>>) -> Seq<Seq<char>> {
    files.map_values(|file: Seq<char>| prefix_part(file))
}

/// The body of each file, in the order of the files.
pub open spec fn graph_parts(files: Seq<Seq<char>>) -> Seq<Seq<char>> {
    files.map_values(|file: Seq<char>| graph_part(file))
}

/// The parts with a line break between each two of them.
pub open spec fn join_lines(parts: Seq<Seq<char>>) -> Seq<char>
    decreases parts.len(),
{
    if parts.len() == 0 {
        Seq::empty()
    } else if parts.len() == 1 {
        parts[0]
    } else {
        join_lines(parts.drop_last()) + seq!['\n'] + parts.last()
    }
}

/// One document for many graph files: the prefix part of every file, then
/// the body of every file, with a line break between each two of these
/// parts. A file without a line break is its own prefix part and has an
/// empty body.
pub open spec fn bundle(files: Seq<Seq<char>>) -> Seq<char> {
    join_lines(prefix_parts(files) + graph_parts(files))
}

/// The texts that the byte strings encode.
pub open spec fn decoded(graphs: Seq<Vec<u8>>) -> Seq<Seq<char>> {
    graphs.map_values(|graph: Vec<u8>| vstd::utf8::decode_utf8(graph@))
}

fn find_line_break(chars: &Vec<char>) -> (at: usize)
    ensures
        at == line_break(chars@, 0),
        at <= chars.len(),
{
    let mut at: usize = 0;
    while at < chars.len() && chars[at] != '\n'
        invariant
            at <= chars.len(),
            line_break(chars@, 0) == line_break(chars@, at as int),
        decreases chars.len() - at,
    {
        at = at + 1;
    }
    at
}

fn push_part(out: &mut String, started: &mut bool, chars: &Vec<char>, from: usize, to: usize)
    requires
        from <= to <= chars.len(),
    ensures
        *final(started),
        !*old(started) ==> final(out)@ == old(out)@ + chars@.subrange(from as int, to as int),
        *old(started) ==> final(out)@ == old(out)@ + seq!['\n'] + chars@.subrange(
            from as int,
            to as int,
        ),
{
    if *started {
        out.push('\n');
    }
    *started = true;
    let ghost start = out@;
    let mut i: usize = from;
    while i < to
        invariant
            from <= i <= to <= chars.len(),
            out@ == start + chars@.subrange(from as int, i as int),
        decreases to - i,
    {
        out.push(chars[i]);
        assert(chars@.subrange(from as int, i + 1) == chars@.subrange(from as int, i as int).push(
            chars@[i as int],
        ));
        i = i + 1;
    }
}

proof fn lemma_join_push(parts: Seq<Seq<char>>, part: Seq<char>)
    ensures
        parts.len() == 0 ==> join_lines(parts.push(part)) == part,
        parts.len() > 0 ==> join_lines(parts.push(part)) == join_lines(parts) + seq!['\n'] + part,
{
    assert(parts.push(part).drop_last() == parts);
    if parts.len() == 0 {
        assert(join_lines(parts.push(part)) == parts.push(part)[0]);
    }
}

/// Combines the graph files of one state into a single Turtle document by
/// the bundling rule: each file is split at its first line break, all first
/// lines come first, then all that follows them. Fails exactly where a file
/// is not UTF-8.
pub fn combine_graphs(graphs: Vec<Vec<u8>>) -> (combined: Result<String, Error>)
    ensures
        combined is Ok <==> forall|i: int|
            0 <= i < graphs.len() ==> vstd::utf8::valid_utf8(#[trigger] graphs[i]@),
        combined matches Ok(text) ==> text@ == bundle(decoded(graphs@)),
        combined matches Err(e) ==> e is FromUtf8Error,
{
    let ghost files = decoded(graphs@);
    let mut texts: Vec<Vec<char>> = Vec::new();
    let mut breaks: Vec<usize> = Vec::new();
    for graph in it: graphs
        invariant
            it.seq() == graphs@,
            files == decoded(graphs@),
            texts.len() == it.index(),
            breaks.len() == it.index(),
            forall|k: int| 0 <= k < it.index() ==> vstd::utf8::valid_utf8(#[trigger] graphs[k]@),
            forall|k: int| 0 <= k < it.index() ==> (#[trigger] texts[k])@ == files[k],
            forall|k: int|
                0 <= k < it.index() ==> (#[trigger] breaks[k]) == line_break(files[k], 0)
                    && breaks[k] <= files[k].len(),
    {
        let ghost k = it.index() as int;
        assert(graph == graphs@[k]);
        match String::from_utf8(graph) {
            Err(e) => {
                return Err(Error::FromUtf8Error(e));
            },
            Ok(text) => {
                let chars = chars_of(text.as_str());
                assert(chars@ == files[k]);
                breaks.push(find_line_break(&chars));
                texts.push(chars);
            },
        }
    }
    let ghost prefixes = prefix_parts(files);
    let ghost bodies = graph_parts(files);
    let mut out = String::new();
    let mut started = false;
    let mut i: usize = 0;
    while i < texts.len()
        invariant
            i <= texts.len(),
            texts.len() == files.len(),
            breaks.len() == files.len(),
            prefixes == prefix_parts(files),
            started == (i > 0),
            out@ == join_lines(prefixes.take(i as int)),
            forall|k: int| 0 <= k < files.len() ==> (#[trigger] texts[k])@ == files[k],
            forall|k: int|
                0 <= k < files.len() ==> (#[trigger] breaks[k]) == line_break(files[k], 0)
                    && breaks[k] <= files[k].len(),
        decreases texts.len() - i,
    {
        proof {
            assert(prefixes.take(i + 1) == prefixes.take(i as int).push(prefixes[i as int]));
            lemma_join_push(prefixes.take(i as int), prefixes[i as int]);
        }
        push_part(&mut out, &mut started, &texts[i], 0, breaks[i]);
        i = i + 1;
    }
    assert(prefixes.take(files.len() as int) == prefixes);
    let mut j: usize = 0;
    while j < texts.len()
        invariant
            j <= texts.len(),
            texts.len() == files.len(),
            breaks.len() == files.len(),
            prefixes == prefix_parts(files),
            bodies == graph_parts(files),
            started == (files.len() > 0),
            out@ == join_lines(prefixes + bodies.take(j as int)),
            forall|k: int| 0 <= k < files.len() ==> (#[trigger] texts[k])@ == files[k],
            forall|k: int|
                0 <= k < files.len() ==> (#[trigger] breaks[k]) == line_break(files[k], 0)
                    && breaks[k] <= files[k].len(),
        decreases texts.len() - j,
    {
        let from = if breaks[j] < texts[j].len() {
            breaks[j] + 1
        } else {
            texts[j].len()
        };
        proof {
            let before = prefixes + bodies.take(j as int);
            assert(bodies[j as int] == files[j as int].subrange(
                from as int,
                files[j as int].len() as int,
            ));
            lemma_join_push(before, bodies[j as int]);
            assert(before.push(bodies[j as int]) == prefixes + bodies.take(j + 1));
        }
        push_part(&mut out, &mut started, &texts[j], from, texts[j].len());
        j = j + 1;
    }
    assert(bodies.take(files.len() as int) == bodies);
    Ok(out)
}

/// The results of a query in oxigraph, not yet read.
#[verifier::external_type_specification]
#[verifier::external_body]
pub struct ExQueryResults<'a>(QueryResults<'a>);

/// A query of oxigraph that is parsed and ready for a store.
#[verifier::external_type_specification]
#[verifier::external_body]
pub struct ExPreparedSparqlQuery(PreparedSparqlQuery);

/// The error of oxigraph's SPARQL parser.
#[verifier::external_type_specification]
#[verifier::external_body]
pub struct ExSparqlSyntaxError(SparqlSyntaxError);

/// One solution of a query.
#[verifier::external_type_specification]
#[verifier::external_body]
pub struct ExQuerySolution(QuerySolution);

/// One triple.
#[verifier::external_type_specification]
#[verifier::external_body]
pub struct ExTriple(Triple);

/// A variable of a query.
#[verifier::external_type_specification]
#[verifier::external_body]
pub struct ExVariable(Variable);

/// The concurrent cache of moka.
#[verifier::external_type_specification]
#[verifier::external_body]
#[verifier::reject_recursive_types(K)]
#[verifier::reject_recursive_types(V)]
#[verifier::reject_recursive_types(S)]
pub struct ExCache<K, V, S>(Cache<K, V, S>);

/// A table of solutions that is being written as JSON: the writer of
/// sparesults over a byte buffer, held as a value of the library.
#[verifier::external_body]
pub struct JsonTable {
    writer: WriterSolutionsSerializer<Vec<u8>>,
}

/// What a query gave, read to its end.
pub enum Answer {
    /// The answer of an `ASK`.
    Boolean(bool),
    /// The solutions of a `SELECT`, under its variables.
    Solutions(Vec<Variable>, Vec<QuerySolution>),
    /// The triples of a `CONSTRUCT` or `DESCRIBE`.
    Graph(Vec<Triple>),
}

/// Whether oxigraph's SPARQL parser takes `query` for a query.
pub uninterp spec fn sparql_parses(query: Seq<char>) -> bool;

/// `SparqlEvaluator::parse_query` of oxigraph, on a new evaluator: parses
/// `query` as SPARQL. Whether it succeeds depends on the text alone.
#[verifier::external_body]
fn parse_query(query: &str) -> (prepared: Result<PreparedSparqlQuery, SparqlSyntaxError>)
    ensures
        prepared is Ok == sparql_parses(query@),
{
    SparqlEvaluator::new().parse_query(query)
}

/// The conversion of oxigraph from a syntax error to an evaluation error.
#[verifier::external_body]
fn syntax_error(e: SparqlSyntaxError) -> (error: QueryEvaluationError) {
    QueryEvaluationError::from(e)
}

/// `PreparedSparqlQuery::on_store` of oxigraph with
/// `BoundPreparedSparqlQuery::execute`: evaluates the query on `store`. The
/// results depend on what the store holds, and a query may ask for the time
/// or for random numbers.
#[verifier::external_body]
fn evaluate(store: &Store, prepared: PreparedSparqlQuery) -> (results: Result<
    QueryResults<'static>,
    QueryEvaluationError,
>) {
    prepared.on_store(store).execute()
}

/// Tells the variants of oxigraph's `QueryResults` apart and reads the
/// solutions or triples to their end; it stops at the first one that fails.
#[verifier::external_body]
fn collect_results(results: QueryResults<'static>) -> (answer: Result<
    Answer,
    QueryEvaluationError,
>) {
    Ok(
        match results {
            QueryResults::Boolean(value) => Answer::Boolean(value),
            QueryResults::Solutions(rows) => Answer::Solutions(
                rows.variables().to_vec(),
                rows.collect::<Result<_, _>>()?,
            ),
            QueryResults::Graph(triples) => Answer::Graph(triples.collect::<Result<_, _>>()?),
        },
    )
}

/// The document for the answer `value` of an `ASK` in the JSON form of
/// SPARQL results: an empty head and the answer.
pub open spec fn ask_document(value: bool) -> Seq<char> {
    if value {
        "{\"head\":{},\"boolean\":true}"@
    } else {
        "{\"head\":{},\"boolean\":false}"@
    }
}

/// `QueryResultsSerializer::serialize_boolean_to_writer` of sparesults, for
/// JSON and into a new buffer: it writes an object with an empty `head` and
/// the answer under `boolean`, without white space. Writing into a buffer
/// cannot fail.
#[verifier::external_body]
fn json_boolean(value: bool) -> (json: Result<Vec<u8>, std::io::Error>)
    ensures
        json is Ok,
        json matches Ok(bytes) ==> bytes@ == vstd::utf8::encode_utf8(ask_document(value)),
{
    QueryResultsSerializer::from_format(QueryResultsFormat::Json).serialize_boolean_to_writer(
        Vec::new(),
        value,
    )
}

/// The name of a variable.
pub uninterp spec fn variable_name(variable: Variable) -> Seq<char>;

/// What a table holds so far: the bytes that were written into its buffer.
pub uninterp spec fn table_written(table: JsonTable) -> Seq<u8>;

/// How many solutions a table holds so far.
pub uninterp spec fn table_rows(table: JsonTable) -> nat;

/// The start of a table for variables of these names, in the JSON form of
/// SPARQL results: the head with the names, and the opening of the
/// bindings.
pub uninterp spec fn table_head(names: Seq<Seq<char>>) -> Seq<u8>;

/// One solution as a table holds it; behind an earlier solution it starts
/// with the comma that parts the two.
pub uninterp spec fn solution_written(row: QuerySolution, first: bool) -> Seq<u8>;

/// One triple as a table holds it, as a solution that binds variables of
/// the three names to its subject, its predicate and its object; behind an
/// earlier solution it starts with the comma that parts the two.
pub uninterp spec fn triple_written(
    subject: Seq<char>,
    predicate: Seq<char>,
    object: Seq<char>,
    triple: Triple,
    first: bool,
) -> Seq<u8>;

/// The names of variables, in their order.
pub open spec fn names_of(variables: Seq<Variable>) -> Seq<Seq<char>> {
    variables.map_values(|variable: Variable| variable_name(variable))
}

/// What closes a table: the end of the bindings, of the results and of the
/// document, `]`, then the closing brace twice.
pub open spec fn table_tail() -> Seq<u8> {
    seq![0x5du8, 0x7du8, 0x7du8]
}

/// `QueryResultsSerializer::serialize_solutions_to_writer` of sparesults,
/// for JSON and into a new buffer: starts a table with the head for
/// `variables`, which depends on their names alone. Writing into a buffer
/// cannot fail.
#[verifier::external_body]
fn json_table(variables: Vec<Variable>) -> (table: Result<JsonTable, std::io::Error>)
    ensures
        table is Ok,
        table matches Ok(t) ==> table_written(t) == table_head(names_of(variables@)),
        table matches Ok(t) ==> table_rows(t) == 0,
{
    let json = QueryResultsSerializer::from_format(QueryResultsFormat::Json);
    Ok(JsonTable { writer: json.serialize_solutions_to_writer(Vec::new(), variables)? })
}

/// `WriterSolutionsSerializer::serialize` of sparesults: adds one solution
/// to the table, behind what the table holds. What is added depends on the
/// solution and on whether it is the first. It cannot fail on a buffer.
#[verifier::external_body]
fn json_row(table: &mut JsonTable, row: &QuerySolution) -> (written: Result<(), std::io::Error>)
    ensures
        written is Ok,
        table_written(*final(table)) == table_written(*old(table)) + solution_written(
            *row,
            table_rows(*old(table)) == 0,
        ),
        table_rows(*final(table)) == table_rows(*old(table)) + 1,
{
    table.writer.serialize(row)
}

/// `WriterSolutionsSerializer::serialize` of sparesults: adds one triple to
/// the table, as a solution that binds the three variables to the triple's
/// subject, predicate and object. What is added depends on the names of the
/// variables, on the triple and on whether it is the first solution. It
/// cannot fail on a buffer.
#[verifier::external_body]
fn json_triple(
    table: &mut JsonTable,
    subject: &Variable,
    predicate: &Variable,
    object: &Variable,
    triple: &Triple,
) -> (written: Result<(), std::io::Error>)
    ensures
        written is Ok,
        table_written(*final(table)) == table_written(*old(table)) + triple_written(
            variable_name(*subject),
            variable_name(*predicate),
            variable_name(*object),
            *triple,
            table_rows(*old(table)) == 0,
        ),
        table_rows(*final(table)) == table_rows(*old(table)) + 1,
{
    table.writer.serialize(
        [
            (subject.as_ref(), TermRef::from(&triple.subject)),
            (predicate.as_ref(), TermRef::from(&triple.predicate)),
            (object.as_ref(), TermRef::from(&triple.object)),
        ],
    )
}

/// `Variable::new_unchecked` of oxrdf: the variable of this name.
#[verifier::external_body]
fn variable(name: &str) -> (v: Variable)
    ensures
        variable_name(v) == name@,
{
    Variable::new_unchecked(name)
}

/// `WriterSolutionsSerializer::finish` of sparesults: closes the table and
/// hands out the document, which is what the table holds and the three
/// closing characters. All that is ever written is text, so the document is
/// UTF-8. It cannot fail on a buffer.
#[verifier::external_body]
fn json_finish(table: JsonTable) -> (json: Result<Vec<u8>, std::io::Error>)
    ensures
        json is Ok,
        json matches Ok(bytes) ==> bytes@ == table_written(table) + table_tail(),
        json matches Ok(bytes) ==> vstd::utf8::valid_utf8(bytes@),
{
    table.writer.finish()
}

/// The number of entries that a cache of triple stores was made to hold at
/// most.
pub uninterp spec fn store_cache_limit(cache: Cache<u64, Store>) -> u64;

/// The number of entries that a cache of graphs was made to hold at most.
pub uninterp spec fn graphs_cache_limit(cache: Cache<u64, String>) -> u64;

/// The number of entries that a cache of query results was made to hold at
/// most.
pub uninterp spec fn query_cache_limit(cache: Cache<(u64, String), String>) -> u64;

/// `Cache::new` of moka, for triple stores by timestamp: a cache that holds
/// up to `max_capacity` entries. The limit stays as it was made.
#[verifier::external_body]
fn new_store_cache(max_capacity: u64) -> (cache: Cache<u64, Store>)
    ensures
        store_cache_limit(cache) == max_capacity,
{
    Cache::new(max_capacity)
}

/// `Cache::new` of moka, for graphs by timestamp: a cache that holds up to
/// `max_capacity` entries. The limit stays as it was made.
#[verifier::external_body]
fn new_graphs_cache(max_capacity: u64) -> (cache: Cache<u64, String>)
    ensures
        graphs_cache_limit(cache) == max_capacity,
{
    Cache::new(max_capacity)
}

/// `Cache::new` of moka, for query results by timestamp and query: a cache
/// that holds up to `max_capacity` entries. The limit stays as it was made.
#[verifier::external_body]
fn new_query_cache(max_capacity: u64) -> (cache: Cache<(u64, String), String>)
    ensures
        query_cache_limit(cache) == max_capacity,
{
    Cache::new(max_capacity)
}

/// `Cache::get` of moka: a clone of the value that the cache holds for
/// `key`, if it holds one. The cache is shared and evicts by its own policy,
/// so nothing is known of the answer beforehand.
#[verifier::external_body]
fn cache_get<K: Hash + Eq + Send + Sync + 'static, V: Clone + Send + Sync + 'static>(
    cache: &Cache<K, V>,
    key: &K,
) -> (value: Option<V>) {
    cache.get(key)
}

/// `Cache::insert` of moka: puts `value` under `key`, in place of what was
/// there.
#[verifier::external_body]
fn cache_insert<K: Hash + Eq + Send + Sync + 'static, V: Clone + Send + Sync + 'static>(
    cache: &Cache<K, V>,
    key: K,
    value: V,
) {
    cache.insert(key, value)
}

/// How much of the answer to a read came out of the caches.
#[derive(Clone, Copy, Debug, PartialEq, Eq, Structural)]
pub enum CacheLevel {
    /// Nothing: the state was read from the replica and parsed.
    Nothing,
    /// The parsed triple store of the timestamp.
    Graph,
    /// The result of the query at the timestamp.
    Query,
    /// The canonical Turtle of the timestamp.
    Prettified,
}

impl CacheLevel {
    /// The name of the level, as it stands in a response header.
    pub fn name(&self) -> (name: &'static str)
        ensures
            name@ == match self {
                CacheLevel::Nothing => "Nothing"@,
                CacheLevel::Graph => "Graph"@,
                CacheLevel::Query => "Query"@,
                CacheLevel::Prettified => "Prettified"@,
            },
    {
        match self {
            CacheLevel::Nothing => "Nothing",
            CacheLevel::Graph => "Graph",
            CacheLevel::Query => "Query",
            CacheLevel::Prettified => "Prettified",
        }
    }

    /// The name of the level as a string of its own.
    pub fn to_string(&self) -> (name: String)
        ensures
            name@ == match self {
                CacheLevel::Nothing => "Nothing"@,
                CacheLevel::Graph => "Graph"@,
                CacheLevel::Query => "Query"@,
                CacheLevel::Prettified => "Prettified"@,
            },
    {
        String::from_str(self.name())
    }
}

/// The level of a query whose result was, or was not, in the query cache
/// and whose triple store was, or was not, in the store cache.
pub open spec fn query_level_of(query_cached: bool, store_cached: bool) -> CacheLevel {
    if query_cached {
        CacheLevel::Query
    } else if store_cached {
        CacheLevel::Graph
    } else {
        CacheLevel::Nothing
    }
}

/// The level of a read of all graphs whose canonical Turtle was, or was
/// not, in the graphs cache and whose triple store was, or was not, in the
/// store cache.
pub open spec fn graphs_level_of(graphs_cached: bool, store_cached: bool) -> CacheLevel {
    if graphs_cached {
        CacheLevel::Prettified
    } else if store_cached {
        CacheLevel::Graph
    } else {
        CacheLevel::Nothing
    }
}

/// The level of a query whose result was, or was not, in the query cache
/// and whose triple store was, or was not, in the store cache.
pub fn query_level(query_cached: bool, store_cached: bool) -> (level: CacheLevel)
    ensures
        level == query_level_of(query_cached, store_cached),
{
    if query_cached {
        CacheLevel::Query
    } else if store_cached {
        CacheLevel::Graph
    } else {
        CacheLevel::Nothing
    }
}

/// The level of a read of all graphs whose canonical Turtle was, or was
/// not, in the graphs cache and whose triple store was, or was not, in the
/// store cache.
pub fn graphs_level(graphs_cached: bool, store_cached: bool) -> (level: CacheLevel)
    ensures
        level == graphs_level_of(graphs_cached, store_cached),
{
    if graphs_cached {
        CacheLevel::Prettified
    } else if store_cached {
        CacheLevel::Graph
    } else {
        CacheLevel::Nothing
    }
}

/// What a read does once its two cache tiers have answered.
pub enum Tier {
    /// The first tier holds the answer: it is given as it is.
    Answer(String),
    /// Only the store tier holds the timestamp: the answer is computed from
    /// this triple store.
    Stored(Store),
    /// Neither tier holds the timestamp: the graph files have to be read.
    Missing,
}

/// Which tier serves a read, given what its first tier holds for the key
/// and what the store tier holds for the timestamp: the first tier before
/// the store tier, and the files only where both hold nothing.
pub open spec fn tier_of(found: Option<String>, store: Option<Store>) -> Tier {
    match found {
        Some(body) => Tier::Answer(body),
        None => match store {
            Some(store) => Tier::Stored(store),
            None => Tier::Missing,
        },
    }
}

/// Decides how a query is served, given what the query cache holds for
/// timestamp and query and what the store cache holds for the timestamp,
/// and at which level.
pub fn query_tier(found: Option<String>, store: Option<Store>) -> (served: (Tier, CacheLevel))
    ensures
        served.0 == tier_of(found, store),
        served.1 == query_level_of(found is Some, store is Some),
{
    let level = query_level(found.is_some(), store.is_some());
    match found {
        Some(body) => (Tier::Answer(body), level),
        None => match store {
            Some(store) => (Tier::Stored(store), level),
            None => (Tier::Missing, level),
        },
    }
}

/// Decides how a read of all graphs is served, given what the graphs cache
/// and the store cache hold for the timestamp, and at which level.
pub fn graphs_tier(found: Option<String>, store: Option<Store>) -> (served: (Tier, CacheLevel))
    ensures
        served.0 == tier_of(found, store),
        served.1 == graphs_level_of(found is Some, store is Some),
{
    let level = graphs_level(found.is_some(), store.is_some());
    match found {
        Some(body) => (Tier::Answer(body), level),
        None => match store {
            Some(store) => (Tier::Stored(store), level),
            None => (Tier::Missing, level),
        },
    }
}

/// How many entries each cache tier holds at most.
pub const CACHE_CAPACITY: u64 = 1000;

/// The variable under which the subject of a triple is written.
pub const SUBJECT: &'static str = "subject";

/// The variable under which the predicate of a triple is written.
pub const PREDICATE: &'static str = "predicate";

/// The variable under which the object of a triple is written.
pub const OBJECT: &'static str = "object";

/// The three cache tiers, each bounded and independent of the others.
pub struct QueryCache {
    /// The parsed triple store of a timestamp.
    pub store_cache: Cache<u64, Store>,
    /// The canonical Turtle of all graphs at a timestamp.
    pub graphs_cache: Cache<u64, String>,
    /// The JSON result of a query at a timestamp.
    pub query_cache: Cache<(u64, String), String>,
}

impl QueryCache {
    /// Three tiers that hold up to [`CACHE_CAPACITY`] entries each.
    pub fn new() -> (cache: QueryCache)
        ensures
            store_cache_limit(cache.store_cache) == CACHE_CAPACITY,
            graphs_cache_limit(cache.graphs_cache) == CACHE_CAPACITY,
            query_cache_limit(cache.query_cache) == CACHE_CAPACITY,
    {
        QueryCache {
            store_cache: new_store_cache(CACHE_CAPACITY),
            graphs_cache: new_graphs_cache(CACHE_CAPACITY),
            query_cache: new_query_cache(CACHE_CAPACITY),
        }
    }
}

/// The table of `rows` under variables of these `names`, before it is
/// closed: the head, then the solutions in their order.
pub open spec fn solutions_written(names: Seq<Seq<char>>, rows: Seq<QuerySolution>) -> Seq<u8>
    decreases rows.len(),
{
    if rows.len() == 0 {
        table_head(names)
    } else {
        solutions_written(names, rows.drop_last()) + solution_written(
            rows.last(),
            rows.len() == 1,
        )
    }
}

/// The names under which triples are written.
pub open spec fn triple_names() -> Seq<Seq<char>> {
    seq![SUBJECT@, PREDICATE@, OBJECT@]
}

/// The table of `triples`, before it is closed: the head for
/// [`triple_names`], then the triples in their order, each as a solution
/// under these names.
pub open spec fn triples_written(triples: Seq<Triple>) -> Seq<u8>
    decreases triples.len(),
{
    if triples.len() == 0 {
        table_head(triple_names())
    } else {
        triples_written(triples.drop_last()) + triple_written(
            SUBJECT@,
            PREDICATE@,
            OBJECT@,
            triples.last(),
            triples.len() == 1,
        )
    }
}

/// The document of an answer in the JSON form of SPARQL results: the
/// document of an `ASK`, or the table of all solutions or of all triples, in
/// their order, closed.
pub open spec fn answer_document(answer: Answer) -> Seq<u8> {
    match answer {
        Answer::Boolean(value) => vstd::utf8::encode_utf8(ask_document(value)),
        Answer::Solutions(variables, rows) => solutions_written(names_of(variables@), rows@)
            + table_tail(),
        Answer::Graph(triples) => triples_written(triples@) + table_tail(),
    }
}

fn write_solutions(variables: Vec<Variable>, rows: &Vec<QuerySolution>) -> (json: Result<
    Vec<u8>,
    std::io::Error,
>)
    ensures
        json matches Ok(bytes) && bytes@ == solutions_written(names_of(variables@), rows@)
            + table_tail() && vstd::utf8::valid_utf8(bytes@),
{
    let ghost names = names_of(variables@);
    let mut table = json_table(variables)?;
    let mut i: usize = 0;
    while i < rows.len()
        invariant
            i <= rows.len(),
            table_rows(table) == i,
            table_written(table) == solutions_written(names, rows@.take(i as int)),
        decreases rows.len() - i,
    {
        proof {
            assert(rows@.take(i + 1).drop_last() == rows@.take(i as int));
        }
        json_row(&mut table, &rows[i])?;
        i = i + 1;
    }
    assert(rows@.take(rows.len() as int) == rows@);
    json_finish(table)
}

fn write_triples(triples: &Vec<Triple>) -> (json: Result<Vec<u8>, std::io::Error>)
    ensures
        json matches Ok(bytes) && bytes@ == triples_written(triples@) + table_tail()
            && vstd::utf8::valid_utf8(bytes@),
{
    let mut head: Vec<Variable> = Vec::new();
    head.push(variable(SUBJECT));
    head.push(variable(PREDICATE));
    head.push(variable(OBJECT));
    assert(names_of(head@) == triple_names());
    let subject = variable(SUBJECT);
    let predicate = variable(PREDICATE);
    let object = variable(OBJECT);
    let mut table = json_table(head)?;
    let mut i: usize = 0;
    while i < triples.len()
        invariant
            i <= triples.len(),
            variable_name(subject) == SUBJECT@,
            variable_name(predicate) == PREDICATE@,
            variable_name(object) == OBJECT@,
            table_rows(table) == i,
            table_written(table) == triples_written(triples@.take(i as int)),
        decreases triples.len() - i,
    {
        proof {
            assert(triples@.take(i + 1).drop_last() == triples@.take(i as int));
        }
        json_triple(&mut table, &subject, &predicate, &object, &triples[i])?;
        i = i + 1;
    }
    assert(triples@.take(triples.len() as int) == triples@);
    json_finish(table)
}

/// Whether a written document is a text: the writer did not fail, and the
/// bytes are UTF-8.
pub open spec fn written_is_text(written: Result<Vec<u8>, std::io::Error>) -> bool {
    written matches Ok(bytes) && vstd::utf8::valid_utf8(bytes@)
}

/// The text of a written document: the characters that its bytes encode. A
/// failure of the writer is an `IOError` with the writer's own error, and
/// bytes that are not UTF-8 are a `FromUtf8Error`.
pub fn json_text(written: Result<Vec<u8>, std::io::Error>) -> (json: Result<String, Error>)
    ensures
        json is Ok == written_is_text(written),
        json matches Ok(text) ==> (written matches Ok(bytes) && text@ == vstd::utf8::decode_utf8(
            bytes@,
        )),
        json matches Err(e) ==> match written {
            Ok(_) => e is FromUtf8Error,
            Err(cause) => e == Error::IOError(cause),
        },
{
    match written {
        Err(e) => Err(Error::IOError(e)),
        Ok(bytes) => match String::from_utf8(bytes) {
            Ok(text) => Ok(text),
            Err(e) => Err(Error::FromUtf8Error(e)),
        },
    }
}

/// Whether `text` is the document of some answer.
pub open spec fn is_answer_text(text: Seq<char>) -> bool {
    exists|answer: Answer| text == vstd::utf8::decode_utf8(#[trigger] answer_document(answer))
}

/// The answer of a query in the W3C JSON form of SPARQL results: the text
/// of [`answer_document`]. It cannot fail. The answer of an `ASK` gives
/// [`ask_document`]; solutions are written in their order under their
/// variables, and triples as solutions of [`SUBJECT`], [`PREDICATE`] and
/// [`OBJECT`].
pub fn answer_json(answer: Answer) -> (json: Result<String, Error>)
    ensures
        json is Ok,
        json matches Ok(text) ==> text@ == vstd::utf8::decode_utf8(answer_document(answer)),
        answer matches Answer::Boolean(value) ==> (json matches Ok(text) && text@ == ask_document(
            value,
        )),
{
    let written = match answer {
        Answer::Boolean(value) => {
            proof {
                vstd::utf8::encode_utf8_valid_utf8(ask_document(value));
                vstd::utf8::encode_utf8_decode_utf8(ask_document(value));
            }
            json_boolean(value)
        },
        Answer::Solutions(variables, rows) => write_solutions(variables, &rows),
        Answer::Graph(triples) => write_triples(&triples),
    };
    json_text(written)
}

/// Evaluates the SPARQL `query` on `store` and gives the result as JSON:
/// the text of the document of what the evaluation gave. A text that is no
/// query is an error, whatever the store holds, and every error is an
/// `EvaluationError`.
pub fn execute_query_in_store(store: &Store, query: &str) -> (json: Result<String, Error>)
    ensures
        !sparql_parses(query@) ==> json is Err,
        json matches Err(e) ==> e is EvaluationError,
        json matches Ok(text) ==> is_answer_text(text@),
{
    let prepared = match parse_query(query) {
        Ok(prepared) => prepared,
        Err(e) => {
            return Err(Error::EvaluationError(syntax_error(e)));
        },
    };
    let results = match evaluate(store, prepared) {
        Ok(results) => results,
        Err(e) => {
            return Err(Error::EvaluationError(e));
        },
    };
    match collect_results(results) {
        Ok(answer) => answer_json(answer),
        Err(e) => Err(Error::EvaluationError(e)),
    }
}

/// Whether every one of the byte strings is UTF-8.
pub open spec fn all_utf8(graphs: Seq<Vec<u8>>) -> bool {
    forall|i: int| 0 <= i < graphs.len() ==> vstd::utf8::valid_utf8(#[trigger] graphs[i]@)
}

/// Whether the graph files of a state load into a triple store: there are
/// none, or they are all UTF-8 and their bundle parses as Turtle.
pub open spec fn store_loads(graphs: Seq<Vec<u8>>) -> bool {
    graphs.len() == 0 || (all_utf8(graphs) && turtle_parses(bundle(decoded(graphs))))
}

/// Loads the graph files of one state into a new triple store: an empty
/// store where there are no files, else the store of their bundle. A file
/// that is not UTF-8 is a `FromUtf8Error`, a bundle that does not parse a
/// `LoaderError`.
pub fn read_files_into_graph_store(graphs: Vec<Vec<u8>>) -> (store: Result<Store, Error>)
    ensures
        store is Ok == store_loads(graphs@),
        store matches Err(e) ==> if all_utf8(graphs@) {
            e is LoaderError
        } else {
            e is FromUtf8Error
        },
{
    if graphs.len() == 0 {
        return empty_store();
    }
    let graph = combine_graphs(graphs)?;
    parse_turtle_bulk(graph.as_str())
}

/// A result that was just computed, as it is answered at `level`, with the
/// copy of it that goes into a cache tier: both are the result itself.
pub fn fresh_answer(body: String, level: CacheLevel) -> (fresh: (String, (String, CacheLevel)))
    ensures
        fresh.0 == body,
        fresh.1 == (body, level),
{
    let copy = body.clone();
    (copy, (body, level))
}

/// Answers a query at `timestamp` out of the caches, if they can: from the
/// query cache at level `Query`, else by evaluating it on the triple store
/// of the store cache at level `Graph`, which fills the query cache. `None`
/// where neither tier holds the timestamp; nothing is put into a cache when
/// the evaluation fails. What the tiers hold is theirs to say: which of them
/// serves, and at which level, follows from it by [`query_tier`].
pub fn query_cached(cache: &QueryCache, timestamp: u64, query: &String) -> (answer: Result<
    Option<(String, CacheLevel)>,
    Error,
>)
    ensures
        answer matches Ok(Some(hit)) ==> hit.1 == CacheLevel::Query || hit.1 == CacheLevel::Graph,
        answer matches Ok(Some(hit)) ==> (hit.1 == CacheLevel::Graph ==> sparql_parses(query@)
            && is_answer_text(hit.0@)),
        answer matches Err(e) ==> e is EvaluationError,
{
    let found = cache_get(&cache.query_cache, &(timestamp, query.clone()));
    let store = cache_get(&cache.store_cache, &timestamp);
    match query_tier(found, store) {
        (Tier::Answer(body), level) => Ok(Some((body, level))),
        (Tier::Stored(store), level) => {
            let result = execute_query_in_store(&store, query.as_str())?;
            let (copy, hit) = fresh_answer(result, level);
            cache_insert(&cache.query_cache, (timestamp, query.clone()), copy);
            Ok(Some(hit))
        },
        (Tier::Missing, _) => Ok(None),
    }
}

/// Answers a query at `timestamp` from the graph files of that state, at
/// level `Nothing`: loads them into a triple store, evaluates the query, and
/// only then fills the store cache and the query cache. It fails where the
/// files do not load or the text is no query.
pub fn query_materialized(
    cache: &QueryCache,
    timestamp: u64,
    query: String,
    graphs: Vec<Vec<u8>>,
) -> (answer: Result<(String, CacheLevel), Error>)
    ensures
        answer matches Ok(hit) ==> hit.1 == CacheLevel::Nothing && is_answer_text(hit.0@),
        answer is Ok ==> store_loads(graphs@) && sparql_parses(query@),
        !store_loads(graphs@) ==> (answer matches Err(e) && if all_utf8(graphs@) {
            e is LoaderError
        } else {
            e is FromUtf8Error
        }),
        store_loads(graphs@) && !sparql_parses(query@) ==> (answer matches Err(e)
            && e is EvaluationError),
        answer matches Err(e) ==> e is FromUtf8Error || e is LoaderError || e is EvaluationError,
{
    let store = read_files_into_graph_store(graphs)?;
    let result = execute_query_in_store(&store, query.as_str())?;
    let (copy, hit) = fresh_answer(result, CacheLevel::Nothing);
    cache_insert(&cache.store_cache, timestamp, store);
    cache_insert(&cache.query_cache, (timestamp, query), copy);
    Ok(hit)
}

/// Answers a query at `timestamp` with the level of cache that served it.
/// `graphs` are the graph files of the state at `timestamp`; they are read
/// only where no cache tier holds the timestamp.
pub fn query_with_cache(
    cache: &QueryCache,
    timestamp: u64,
    query: String,
    graphs: Vec<Vec<u8>>,
) -> (answer: Result<(String, CacheLevel), Error>)
    ensures
        answer matches Ok(hit) ==> hit.1 == CacheLevel::Query || hit.1 == CacheLevel::Graph
            || hit.1 == CacheLevel::Nothing,
        answer matches Ok(hit) ==> (hit.1 == CacheLevel::Graph ==> sparql_parses(query@)),
        answer matches Ok(hit) ==> (hit.1 == CacheLevel::Nothing ==> store_loads(graphs@)
            && sparql_parses(query@)),
        answer matches Ok(hit) ==> (hit.1 != CacheLevel::Query ==> is_answer_text(hit.0@)),
        answer matches Err(e) ==> e is FromUtf8Error || e is LoaderError || e is EvaluationError,
{
    match query_cached(cache, timestamp, &query)? {
        Some(hit) => Ok(hit),
        None => query_materialized(cache, timestamp, query, graphs),
    }
}

/// All graphs at `timestamp` as canonical Turtle out of the caches, if they
/// can give it: from the graphs cache at level `Prettified`, else by dumping
/// and prettifying the triple store of the store cache at level `Graph`,
/// which fills the graphs cache. `None` where neither tier holds the
/// timestamp. What the tiers hold is theirs to say: which of them serves,
/// and at which level, follows from it by [`graphs_tier`]. A text that is
/// not out of the graphs cache is what the prettifier gave for a dump.
pub fn graphs_cached<P: RdfPrettifier>(
    rdf_prettifier: &P,
    cache: &QueryCache,
    timestamp: u64,
) -> (answer: Result<Option<(String, CacheLevel)>, Error>)
    ensures
        answer matches Ok(Some(hit)) ==> hit.1 == CacheLevel::Prettified || hit.1
            == CacheLevel::Graph,
        answer matches Ok(Some(hit)) ==> (hit.1 == CacheLevel::Graph ==> pretty_dump(
            rdf_prettifier,
            hit.0,
        )),
{
    let found = cache_get(&cache.graphs_cache, &timestamp);
    let store = cache_get(&cache.store_cache, &timestamp);
    match graphs_tier(found, store) {
        (Tier::Answer(body), level) => Ok(Some((body, level))),
        (Tier::Stored(store), level) => {
            let turtle = to_turtle(&store)?;
            let prettified = rdf_prettifier.prettify(turtle.as_str())?;
            assert(pretty_dump(rdf_prettifier, prettified)) by {
                assert(prettifies(rdf_prettifier, turtle@, Ok::<String, Error>(prettified)));
            }
            let (copy, hit) = fresh_answer(prettified, level);
            cache_insert(&cache.graphs_cache, timestamp, copy);
            Ok(Some(hit))
        },
        (Tier::Missing, _) => Ok(None),
    }
}

/// Whether `text` is what the prettifier gave for some Turtle document.
pub open spec fn pretty_dump<P: RdfPrettifier>(rdf_prettifier: &P, text: String) -> bool {
    exists|turtle: Seq<char>| #[trigger]
        prettifies(rdf_prettifier, turtle, Ok::<String, Error>(text))
}

/// All graphs at `timestamp` as canonical Turtle from the graph files of
/// that state, at level `Nothing`: loads them into a triple store, dumps and
/// prettifies it, and only then fills the store cache and the graphs cache.
/// It fails where the files do not load.
pub fn graphs_materialized<P: RdfPrettifier>(
    rdf_prettifier: &P,
    cache: &QueryCache,
    timestamp: u64,
    graphs: Vec<Vec<u8>>,
) -> (answer: Result<(String, CacheLevel), Error>)
    ensures
        answer matches Ok(hit) ==> hit.1 == CacheLevel::Nothing,
        answer matches Ok(hit) ==> pretty_dump(rdf_prettifier, hit.0),
        answer is Ok ==> store_loads(graphs@),
        !store_loads(graphs@) ==> (answer matches Err(e) && if all_utf8(graphs@) {
            e is LoaderError
        } else {
            e is FromUtf8Error
        }),
{
    let store = read_files_into_graph_store(graphs)?;
    let turtle = to_turtle(&store)?;
    let prettified = rdf_prettifier.prettify(turtle.as_str())?;
    assert(pretty_dump(rdf_prettifier, prettified)) by {
        assert(prettifies(rdf_prettifier, turtle@, Ok::<String, Error>(prettified)));
    }
    let (copy, hit) = fresh_answer(prettified, CacheLevel::Nothing);
    cache_insert(&cache.store_cache, timestamp, store);
    cache_insert(&cache.graphs_cache, timestamp, copy);
    Ok(hit)
}

/// All graphs at `timestamp` as canonical Turtle, with the level of cache
/// that served them. `graphs` are the graph files of the state at
/// `timestamp`; they are read only where no cache tier holds the timestamp.
pub fn graphs_with_cache<P: RdfPrettifier>(
    rdf_prettifier: &P,
    cache: &QueryCache,
    timestamp: u64,
    graphs: Vec<Vec<u8>>,
) -> (answer: Result<(String, CacheLevel), Error>)
    ensures
        answer matches Ok(hit) ==> hit.1 == CacheLevel::Prettified || hit.1 == CacheLevel::Graph
            || hit.1 == CacheLevel::Nothing,
        answer matches Ok(hit) ==> (hit.1 == CacheLevel::Nothing ==> store_loads(graphs@)),
        answer matches Ok(hit) ==> (hit.1 != CacheLevel::Prettified ==> pretty_dump(
            rdf_prettifier,
            hit.0,
        )),
{
    match graphs_cached(rdf_prettifier, cache, timestamp)? {
        Some(hit) => Ok(hit),
        None => graphs_materialized(rdf_prettifier, cache, timestamp, graphs),
    }
}

} // verus!
