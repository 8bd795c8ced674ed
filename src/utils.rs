//! Names and contents of the transcript files written at shutdown.
use vstd::prelude::*;
use vstd::string::StringExecFns;

use crate::store::ModelEntry;
use crate::store::ModelStore;
use crate::text::chars_of;
use crate::text::string_from_chars;

verus! {

/// A character that cannot stand in a file name.
pub open spec fn path_unsafe(c: char) -> bool {
    c == ':' || c == '/' || c == '\\'
}

/// `name` with every path-unsafe character replaced by `_`.
pub open spec fn sanitized(name: Seq<char>) -> Seq<char> {
    name.map_values(|c: char| if path_unsafe(c) { '_' } else { c })
}

/// A model identifier made safe for use in a file name.
pub fn sanitize_model_name(name: &str) -> (r: String)
    ensures
        r@ == sanitized(name@),
{
    let v = chars_of(name);
    let mut out: Vec<char> = Vec::new();
    let mut i: usize = 0;
    while i < v.len()
        invariant
            v@ == name@,
            i <= v@.len(),
            out@ == sanitized(v@.take(i as int)),
        decreases v@.len() - i,
    {
        let c = v[i];
        let d = if c == ':' || c == '/' || c == '\\' {
            '_'
        } else {
            c
        };
        out.push(d);
        proof {
            assert(v@.take(i + 1) =~= v@.take(i as int).push(c));
            assert(sanitized(v@.take(i + 1)) =~= sanitized(v@.take(i as int)).push(d));
        }
        i = i + 1;
    }
    proof {
        assert(v@.take(v@.len() as int) =~= v@);
    }
    string_from_chars(&out)
}

/// The file name of the combined transcript saved at `timestamp`.
pub open spec fn history_file_name_spec(timestamp: Seq<char>) -> Seq<char> {
    "chat_"@ + timestamp + ".txt"@
}

/// The file name of a model's transcript saved at `timestamp`.
pub open spec fn model_file_name_spec(model: Seq<char>, timestamp: Seq<char>) -> Seq<char> {
    sanitized(model) + "_"@ + timestamp + ".txt"@
}

/// `chat_<timestamp>.txt`.
pub fn history_file_name(timestamp: &str) -> (r: String)
    ensures
        r@ == history_file_name_spec(timestamp@),
{
    let mut r = "chat_".to_owned();
    r.append(timestamp);
    r.append(".txt");
    r
}

/// `<sanitized model>_<timestamp>.txt`.
pub fn model_file_name(model: &str, timestamp: &str) -> (r: String)
    ensures
        r@ == model_file_name_spec(model@, timestamp@),
{
    let mut r = sanitize_model_name(model);
    r.append("_");
    r.append(timestamp);
    r.append(".txt");
    r
}

/// A file to write: its name and its contents.
pub struct HistoryFile {
    pub name: String,
    pub contents: String,
}

/// The files for the records of `entries` whose transcript is not empty, in
/// store order.
pub open spec fn history_files_spec(entries: Seq<ModelEntry>, timestamp: Seq<char>) -> Seq<
    (Seq<char>, Seq<char>),
>
    decreases entries.len(),
{
    if entries.len() == 0 {
        seq![]
    } else {
        let rest = history_files_spec(entries.drop_last(), timestamp);
        let e = entries.last();
        if e.buffer.history@.len() == 0 {
            rest
        } else {
            rest.push((model_file_name_spec(e.model@, timestamp), e.buffer.history@))
        }
    }
}

/// The per-model transcript files to write at `timestamp`: one for every
/// record with a non-empty transcript.
pub fn model_history_files(store: &ModelStore, timestamp: &str) -> (r: Vec<HistoryFile>)
    ensures
        r@.map_values(|f: HistoryFile| (f.name@, f.contents@)) == history_files_spec(
            store.entries@,
            timestamp@,
        ),
{
    let mut out: Vec<HistoryFile> = Vec::new();
    let mut i: usize = 0;
    while i < store.entries.len()
        invariant
            i <= store.entries@.len(),
            out@.map_values(|f: HistoryFile| (f.name@, f.contents@)) == history_files_spec(
                store.entries@.take(i as int),
                timestamp@,
            ),
        decreases store.entries@.len() - i,
    {
        let e = &store.entries[i];
        let ghost before = out@;
        proof {
            assert(store.entries@.take(i + 1).drop_last() =~= store.entries@.take(i as int));
            assert(store.entries@.take(i + 1).last() == *e);
        }
        if !e.buffer.history.as_str().is_empty() {
            out.push(
                HistoryFile {
                    name: model_file_name(e.model.as_str(), timestamp),
                    contents: e.buffer.history.clone(),
                },
            );
            proof {
                assert(out@.map_values(|f: HistoryFile| (f.name@, f.contents@)) =~= before.map_values(
                    |f: HistoryFile| (f.name@, f.contents@),
                ).push((model_file_name_spec(e.model@, timestamp@), e.buffer.history@)));
            }
        }
        i = i + 1;
    }
    proof {
        assert(store.entries@.take(store.entries@.len() as int) =~= store.entries@);
    }
    out
}

} // verus!
