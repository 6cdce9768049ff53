//! Graphs as files of a replica's working tree: how a graph's file is named,
//! and what a store, a delete and a read do to the tree.

use vstd::prelude::*;

use crate::encoding::{
    base64, encode_standard, lemma_base64_chars, lemma_base64_injective, lemma_base64_len,
};
use crate::error::Error;
use crate::git::{
    delete_message, delete_message_text, update_message, update_message_text, Change,
};
use crate::models::Graph;
use crate::rdf::RdfPrettifier;
use crate::text::{chars_of, ends_with, has_suffix};

verus! {

/// What every graph file's name ends with.
pub const SUFFIX: &'static str = ".ttl";

/// A character of a base64 encoding as it stands in a file name: `_` for
/// `/`, `-` for `+`, every other character itself.
pub open spec fn url_safe(c: char) -> char {
    if c == '/' {
        '_'
    } else if c == '+' {
        '-'
    } else {
        c
    }
}

/// The name of a graph's file without its suffix: the base64 encoding of the
/// id's bytes, made safe for a file name.
pub open spec fn graph_stem(id: Seq<char>) -> Seq<char> {
    base64(vstd::utf8::encode_utf8(id)).map_values(|c: char| url_safe(c))
}

/// The name of the file that holds the graph `id`.
pub open spec fn graph_filename_text(id: Seq<char>) -> Seq<char> {
    graph_stem(id) + SUFFIX@
}

/// The name of the file that holds the graph `id`.
pub fn graph_filename(id: &str) -> (filename: String)
    ensures
        filename@ == graph_filename_text(id@),
{
    let encoded = encode_standard(id.as_bytes());
    let chars = chars_of(encoded.as_str());
    let mut filename = String::new();
    let mut i: usize = 0;
    while i < chars.len()
        invariant
            i <= chars.len(),
            filename@ == chars@.take(i as int).map_values(|c: char| url_safe(c)),
        decreases chars.len() - i,
    {
        let c = chars[i];
        let safe = if c == '/' {
            '_'
        } else if c == '+' {
            '-'
        } else {
            c
        };
        filename.push(safe);
        assert(chars@.take(i + 1).map_values(|c: char| url_safe(c)) == chars@.take(
            i as int,
        ).map_values(|c: char| url_safe(c)).push(url_safe(c)));
        i = i + 1;
    }
    assert(chars@.take(chars.len() as int) == chars@);
    filename.append(SUFFIX);
    filename
}

/// Whether `c` may stand in the stem of a file name: a letter, a digit, `_`
/// or `-`.
pub open spec fn is_name_char(c: char) -> bool {
    ||| 'A' <= c <= 'Z'
    ||| 'a' <= c <= 'z'
    ||| '0' <= c <= '9'
    ||| c == '_'
    ||| c == '-'
}

/// Different ids have different file names.
pub proof fn lemma_filename_injective(a: Seq<char>, b: Seq<char>)
    requires
        graph_filename_text(a) == graph_filename_text(b),
    ensures
        a == b,
{
    let x = base64(vstd::utf8::encode_utf8(a));
    let y = base64(vstd::utf8::encode_utf8(b));
    let fa = graph_filename_text(a);
    let fb = graph_filename_text(b);
    assert(graph_stem(a).len() == graph_stem(b).len()) by {
        assert(fa.len() == graph_stem(a).len() + SUFFIX@.len());
        assert(fb.len() == graph_stem(b).len() + SUFFIX@.len());
    }
    assert(x.len() == y.len());
    assert forall|i: int| 0 <= i < x.len() implies x[i] == y[i] by {
        lemma_base64_chars(vstd::utf8::encode_utf8(a), i);
        lemma_base64_chars(vstd::utf8::encode_utf8(b), i);
        assert(fa[i] == url_safe(x[i]));
        assert(fb[i] == url_safe(y[i]));
    }
    assert(x =~= y);
    lemma_base64_injective(vstd::utf8::encode_utf8(a), vstd::utf8::encode_utf8(b));
    vstd::utf8::encode_utf8_decode_utf8(a);
    vstd::utf8::encode_utf8_decode_utf8(b);
}

/// A file name is its stem and the suffix; the stem holds letters, digits,
/// `_`, `-` and, as padding, `=`. Where the id's bytes come in whole groups
/// of three there is no padding, and the stem of such an id, unless it is
/// the empty one, is one or more of the characters that
/// [`is_name_char`] admits.
pub proof fn lemma_filename_alphabet(id: Seq<char>)
    ensures
        graph_filename_text(id) == graph_stem(id) + ".ttl"@,
        graph_stem(id).len() == 4 * ((vstd::utf8::encode_utf8(id).len() + 2) / 3),
        forall|i: int|
            0 <= i < graph_stem(id).len() ==> is_name_char(#[trigger] graph_stem(id)[i])
                || graph_stem(id)[i] == '=',
        vstd::utf8::encode_utf8(id).len() % 3 == 0 ==> forall|i: int|
            0 <= i < graph_stem(id).len() ==> is_name_char(#[trigger] graph_stem(id)[i]),
        vstd::utf8::encode_utf8(id).len() > 0 ==> graph_stem(id).len() > 0,
{
    let bytes = vstd::utf8::encode_utf8(id);
    lemma_base64_len(bytes);
    assert forall|i: int| 0 <= i < graph_stem(id).len() implies (is_name_char(
        #[trigger] graph_stem(id)[i],
    ) || graph_stem(id)[i] == '=') && (bytes.len() % 3 == 0 ==> is_name_char(
        graph_stem(id)[i],
    )) by {
        lemma_base64_chars(bytes, i);
        assert(graph_stem(id)[i] == url_safe(base64(bytes)[i]));
    }
}

/// Whether two byte strings are the same.
pub fn same_bytes(a: &[u8], b: &[u8]) -> (same: bool)
    ensures
        same == (a@ == b@),
{
    if a.len() != b.len() {
        return false;
    }
    let mut i: usize = 0;
    while i < a.len()
        invariant
            i <= a.len(),
            a.len() == b.len(),
            a@.take(i as int) == b@.take(i as int),
        decreases a.len() - i,
    {
        if a[i] != b[i] {
            return false;
        }
        assert(a@.take(i + 1) == a@.take(i as int).push(a@[i as int]));
        assert(b@.take(i + 1) == b@.take(i as int).push(b@[i as int]));
        i = i + 1;
    }
    assert(a@ == a@.take(a.len() as int));
    assert(b@ == b@.take(b.len() as int));
    true
}

/// What a store does to the working tree.
#[derive(Debug)]
pub enum StoreAction {
    /// The file holds the content already: nothing is written, nothing
    /// committed.
    Unchanged,
    /// The file is written with the content, then committed, as an added
    /// path, with the message.
    Write { filename: String, content: String, message: String, change: Change },
}

/// What a graph's file holds, as a value: its bytes, or nothing where there
/// is no file.
pub open spec fn file_bytes(existing: Option<&[u8]>) -> Option<Seq<u8>> {
    match existing {
        Some(bytes) => Some(bytes@),
        None => None,
    }
}

/// Whether the file of a graph holds `content` already, byte for byte.
pub open spec fn holds_content(file: Option<Seq<u8>>, content: Seq<char>) -> bool {
    file == Some(vstd::utf8::encode_utf8(content))
}

/// How many commits a store of `content` makes: none where the file holds
/// it already, else one.
pub open spec fn commits_of_store(file: Option<Seq<u8>>, content: Seq<char>) -> nat {
    if holds_content(file, content) {
        0
    } else {
        1
    }
}

/// What the file holds once `content` was stored.
pub open spec fn file_after_store(file: Option<Seq<u8>>, content: Seq<char>) -> Option<Seq<u8>> {
    Some(vstd::utf8::encode_utf8(content))
}

/// How many commits an action makes.
pub open spec fn commits_of(action: StoreAction) -> nat {
    match action {
        StoreAction::Unchanged => 0,
        StoreAction::Write { .. } => 1,
    }
}

/// What the file holds once an action was carried out on a tree where it
/// held `file`.
pub open spec fn file_after(action: StoreAction, file: Option<Seq<u8>>) -> Option<Seq<u8>> {
    match action {
        StoreAction::Unchanged => file,
        StoreAction::Write { content, .. } => Some(vstd::utf8::encode_utf8(content@)),
    }
}

/// Whether `action` is what the store of the canonical `content` of graph
/// `id` at `timestamp` does to a tree where the graph's file holds `file`:
/// nothing where the file holds the content already, else the write of the
/// content to the graph's file with the message of an update.
pub open spec fn stores(
    action: StoreAction,
    id: Seq<char>,
    content: Seq<char>,
    file: Option<Seq<u8>>,
    timestamp: u64,
) -> bool {
    if holds_content(file, content) {
        action is Unchanged
    } else {
        action matches StoreAction::Write { filename, content: written, message, change }
            && filename@ == graph_filename_text(id) && written@ == content && message@
            == update_message_text(timestamp, id) && change == Change::Add
    }
}

/// Storing the same canonical content twice commits once: a first store of
/// a graph that has no file commits, and a store that follows a store of
/// the same content never does, whatever the timestamps. [`store_action`]
/// makes as many commits, and leaves the file, as is said here.
pub proof fn lemma_same_content_commits_once(file: Option<Seq<u8>>, content: Seq<char>)
    ensures
        commits_of_store(None, content) == 1,
        commits_of_store(file_after_store(file, content), content) == 0,
        commits_of_store(None, content) + commits_of_store(
            file_after_store(None, content),
            content,
        ) == 1,
{
}

/// Decides what storing the canonical `content` of graph `id` at
/// `timestamp` does, given what the graph's file holds now; `existing` is
/// absent where there is no such file.
pub fn store_action(id: &str, content: String, existing: Option<&[u8]>, timestamp: u64) -> (action:
    StoreAction)
    ensures
        stores(action, id@, content@, file_bytes(existing), timestamp),
        commits_of(action) == commits_of_store(file_bytes(existing), content@),
        file_after(action, file_bytes(existing)) == file_after_store(
            file_bytes(existing),
            content@,
        ),
{
    let unchanged = match existing {
        Some(bytes) => same_bytes(bytes, content.as_str().as_bytes()),
        None => false,
    };
    if unchanged {
        StoreAction::Unchanged
    } else {
        StoreAction::Write {
            filename: graph_filename(id),
            content,
            message: update_message(timestamp, id),
            change: Change::Add,
        }
    }
}

/// Whether `pretty` is what the prettifier may give for the payload `text`.
pub open spec fn prettifies<P: RdfPrettifier>(
    rdf_prettifier: &P,
    text: Seq<char>,
    pretty: Result<String, Error>,
) -> bool {
    exists|payload: &str|
        payload@ == text && #[trigger] call_ensures(P::prettify, (rdf_prettifier, payload), pretty)
}

/// Whether `action` follows from `pretty`, what the prettifier gave for the
/// payload of a graph: its error as it is, or what the store of its text
/// does by [`stores`].
pub open spec fn store_follows(
    action: Result<StoreAction, Error>,
    pretty: Result<String, Error>,
    id: Seq<char>,
    file: Option<Seq<u8>>,
    timestamp: u64,
) -> bool {
    match pretty {
        Ok(content) => action matches Ok(done) && stores(done, id, content@, file, timestamp)
            && commits_of(done) == commits_of_store(file, content@),
        Err(e) => action == Err::<StoreAction, Error>(e),
    }
}

/// Stores `graph` at `timestamp`: hands its payload to the prettifier and
/// decides by [`store_action`] what the canonical form does to the working
/// tree. It succeeds where the prettifier does, and fails with the
/// prettifier's error where that fails.
pub fn store_graph<P: RdfPrettifier>(
    rdf_prettifier: &P,
    graph: &Graph,
    existing: Option<&[u8]>,
    timestamp: u64,
) -> (action: Result<StoreAction, Error>)
    ensures
        (exists|pretty: Result<String, Error>|
            prettifies(rdf_prettifier, graph.graph@, pretty) && #[trigger] store_follows(
                action,
                pretty,
                graph.id@,
                file_bytes(existing),
                timestamp,
            )),
        action matches Ok(StoreAction::Write { filename, content, message, .. }) ==> (filename@
            == graph_filename_text(graph.id@) && message@ == update_message_text(
            timestamp,
            graph.id@,
        ) && !holds_content(file_bytes(existing), content@)),
        action matches Ok(StoreAction::Unchanged) ==> existing is Some,
{
    let pretty = rdf_prettifier.prettify(graph.graph.as_str());
    let ghost given = pretty;
    let action = match pretty {
        Ok(content) => Ok(store_action(graph.id.as_str(), content, existing, timestamp)),
        Err(e) => Err(e),
    };
    assert(prettifies(rdf_prettifier, graph.graph@, given));
    assert(store_follows(action, given, graph.id@, file_bytes(existing), timestamp));
    action
}

/// What a delete does to the working tree: the file to remove, and the
/// message of the commit that records it, as a removed path.
#[derive(Debug)]
pub struct DeletePlan {
    pub filename: String,
    pub message: String,
    pub change: Change,
}

/// Plans the deletion of graph `id` at `timestamp`.
pub fn delete_graph(id: &str, timestamp: u64) -> (plan: DeletePlan)
    ensures
        plan.filename@ == graph_filename_text(id@),
        plan.message@ == delete_message_text(timestamp, id@),
        plan.change == Change::Remove,
{
    DeletePlan {
        filename: graph_filename(id),
        message: delete_message(timestamp, id),
        change: Change::Remove,
    }
}

/// An entry of a working tree's top directory; the name is absent where it
/// is not valid text.
#[derive(Clone, Debug)]
pub struct DirEntry {
    pub name: Option<String>,
    pub is_file: bool,
}

/// Whether an entry is a graph file: a regular file whose name ends with the
/// suffix.
pub open spec fn is_graph_file(entry: DirEntry) -> bool {
    entry.is_file && (entry.name matches Some(name) && has_suffix(name@, SUFFIX@))
}

/// Whether an entry is a regular file without a readable name.
pub open spec fn is_unnamed_file(entry: DirEntry) -> bool {
    entry.is_file && entry.name is None
}

/// The positions of the graph files among `entries`, in their order.
pub open spec fn graph_file_indices(entries: Seq<DirEntry>) -> Seq<usize>
    decreases entries.len(),
{
    if entries.len() == 0 {
        Seq::empty()
    } else if is_graph_file(entries.last()) {
        graph_file_indices(entries.drop_last()).push((entries.len() - 1) as usize)
    } else {
        graph_file_indices(entries.drop_last())
    }
}

/// Selects the files to read from a working tree's top directory: the
/// positions of its graph files, in the order of the directory. A regular
/// file without a readable name is an error.
pub fn read_all_files(entries: &Vec<DirEntry>) -> (selected: Result<Vec<usize>, Error>)
    ensures
        selected is Err <==> exists|i: int|
            0 <= i < entries.len() && is_unnamed_file(#[trigger] entries[i]),
        selected matches Ok(indices) ==> indices@ == graph_file_indices(entries@),
        selected matches Err(e) ==> (e matches Error::String(text) && text@ == "filename err"@),
{
    let mut selected: Vec<usize> = Vec::new();
    let mut i: usize = 0;
    while i < entries.len()
        invariant
            i <= entries.len(),
            selected@ == graph_file_indices(entries@.take(i as int)),
            forall|k: int| 0 <= k < i ==> !is_unnamed_file(#[trigger] entries[k]),
        decreases entries.len() - i,
    {
        let ghost seen = entries@.take(i + 1);
        assert(seen.drop_last() == entries@.take(i as int));
        assert(seen.last() == entries[i as int]);
        if entries[i].is_file {
            match &entries[i].name {
                None => {
                    assert(is_unnamed_file(entries[i as int]));
                    return Err(Error::String(String::from_str("filename err")));
                },
                Some(name) => {
                    if ends_with(name.as_str(), SUFFIX) {
                        selected.push(i);
                    }
                },
            }
        }
        i = i + 1;
    }
    assert(entries@.take(entries.len() as int) == entries@);
    Ok(selected)
}

/// Selects the files that a read of the state at a timestamp returns: none
/// where the checkout found no state, else the graph files of the working
/// tree by [`read_all_files`].
pub fn read_all_graph_files(checked_out: bool, entries: &Vec<DirEntry>) -> (selected: Result<
    Vec<usize>,
    Error,
>)
    ensures
        !checked_out ==> (selected matches Ok(indices) && indices@.len() == 0),
        checked_out ==> (selected is Err <==> exists|i: int|
            0 <= i < entries.len() && is_unnamed_file(#[trigger] entries[i])),
        checked_out ==> (selected matches Ok(indices) ==> indices@ == graph_file_indices(
            entries@,
        )),
{
    if checked_out {
        read_all_files(entries)
    } else {
        Ok(Vec::new())
    }
}

} // verus!
