use vstd::prelude::*;

use crate::error::SarifError;
use crate::json::{Json, JsonModel};
use crate::text::{all_ascii_whitespace, is_blank, same_text};

verus! {

/// Whether member `i` is the first member named `key`.
pub open spec fn is_first_member(members: Seq<(String, Json)>, key: Seq<char>, i: int) -> bool {
    &&& 0 <= i < members.len()
    &&& members[i].0@ == key
    &&& forall|j: int| 0 <= j < i ==> #[trigger] members[j].0@ != key
}

/// Whether `doc` is an object with a member named `key`.
pub open spec fn has_member(doc: Json, key: Seq<char>) -> bool {
    doc matches Json::Object(members) && exists|i: int|
        0 <= i < members@.len() && #[trigger] members@[i].0@ == key
}

/// The runs that a SARIF document carries: the items of its `runs` member,
/// when that is an array.
pub open spec fn carried_runs(doc: Json) -> Option<Seq<Json>> {
    match doc {
        Json::Object(members) => if exists|i: int| is_first_member(members@, "runs"@, i) {
            let i = choose|i: int| is_first_member(members@, "runs"@, i);
            match members@[i].1 {
                Json::Array(items) => Some(items@),
                _ => None,
            }
        } else {
            None
        },
        _ => None,
    }
}

/// What taking in the documents of a SARIF stream does to the collected
/// `runs`, in order: a document with a `runs` array adds its items, a
/// document with a `tool` member is itself a run, and the first document
/// that is neither, or the first parse failure, stops the stream with an
/// error (what came before it stays collected).
pub open spec fn absorb(runs: Seq<Json>, documents: Seq<Result<Json, String>>) -> (Seq<Json>, Option<
    SarifError,
>)
    decreases documents.len(),
{
    if documents.len() == 0 {
        (runs, None)
    } else {
        match documents[0] {
            Err(detail) => (runs, Some(SarifError::InvalidJson(detail))),
            Ok(doc) => match carried_runs(doc) {
                Some(items) => absorb(runs + items, documents.drop_first()),
                None => if has_member(doc, "tool"@) {
                    absorb(runs.push(doc), documents.drop_first())
                } else {
                    (runs, Some(SarifError::NotSarif))
                },
            },
        }
    }
}

/// Whether taking in `documents`, read from `bytes`, turns the collected
/// runs `before` into `after` with `result`: the runs are those of `absorb`,
/// the first failure of the stream is the error, and a stream that is not
/// blank yet holds no document is not SARIF.
pub open spec fn pushed(
    before: Seq<Json>,
    after: Seq<Json>,
    documents: Seq<Result<Json, String>>,
    bytes: Seq<u8>,
    result: Result<(), SarifError>,
) -> bool {
    let (runs, failure) = absorb(before, documents);
    &&& after == runs
    &&& match failure {
        Some(e) => result == Err::<(), SarifError>(e),
        None => if documents.len() == 0 && !all_ascii_whitespace(bytes) {
            result == Err::<(), SarifError>(SarifError::NotSarif)
        } else {
            result == Ok::<(), SarifError>(())
        },
    }
}

/// The values of the documents of a stream: each document by its value,
/// each failure by its text.
pub open spec fn doc_models(documents: Seq<Result<Json, String>>) -> Seq<Result<JsonModel, Seq<char>>> {
    documents.map_values(
        |d: Result<Json, String>|
            match d {
                Ok(j) => Ok(j.model()),
                Err(e) => Err(e@),
            },
    )
}

/// The documents that serde_json's stream deserializer reads from `bytes`,
/// in order, each as the value it denotes (a number by its text); when the
/// bytes stop being JSON, the last entry is the parser's error message and
/// the stream ends there.
pub uninterp spec fn json_stream(bytes: Seq<u8>) -> Seq<Result<JsonModel, Seq<char>>>;

#[verifier::external_type_specification]
#[verifier::external_body]
pub struct ExValue(serde_json::Value);

/// Converts a `serde_json::Value` into a [`Json`] document, variant for
/// variant: a number becomes its text, an object its members in the map's
/// order.  Nothing is stated of it; `parse_json_stream` states what the
/// converted documents are.
#[verifier::external_body]
fn json_from_value(value: serde_json::Value) -> Json {
    match value {
        serde_json::Value::Null => Json::Null,
        serde_json::Value::Bool(b) => Json::Bool(b),
        serde_json::Value::Number(n) => Json::Number(n.to_string()),
        serde_json::Value::String(s) => Json::Str(s),
        serde_json::Value::Array(items) => Json::Array(items.into_iter().map(json_from_value).collect()),
        serde_json::Value::Object(map) => Json::Object(
            map.into_iter().map(|(k, v)| (k, json_from_value(v))).collect(),
        ),
    }
}

/// Calls serde_json's `Deserializer::from_slice(bytes).into_iter::<Value>()`
/// and converts each document with `json_from_value` and each error to its
/// message.  The stream ends after its first error (the deserializer cuts its
/// input there).  Stated: the converted documents are `json_stream(bytes)`,
/// a name for what the parser reads.
#[verifier::external_body]
fn parse_json_stream(bytes: &[u8]) -> (documents: Vec<Result<Json, String>>)
    ensures
        doc_models(documents@) == json_stream(bytes@),
{
    serde_json::Deserializer::from_slice(bytes)
        .into_iter::<serde_json::Value>()
        .map(|r| r.map(json_from_value).map_err(|e| e.to_string()))
        .collect()
}

/// A SARIF report: the runs gathered from the hooks.
#[derive(Debug)]
pub struct SarifReport {
    pub version: &'static str,
    pub schema: &'static str,
    pub runs: Vec<Json>,
}

impl Default for SarifReport {
    /// A SARIF 2.1.0 report with no runs.
    fn default() -> (report: Self)
        ensures
            report.version@ == "2.1.0"@,
            report.schema@ == "https://json.schemastore.org/sarif-2.1.0.json"@,
            report.runs@ == Seq::<Json>::empty(),
    {
        SarifReport {
            version: "2.1.0",
            schema: "https://json.schemastore.org/sarif-2.1.0.json",
            runs: Vec::new(),
        }
    }
}

/// The position of the first member of `doc` named `runs`, when `doc` is an
/// object that has one and its value is an array.
fn runs_position(doc: &Json) -> (found: Option<usize>)
    ensures
        found is Some <==> carried_runs(*doc) is Some,
        found matches Some(i) ==> (doc matches Json::Object(members) && is_first_member(
            members@,
            "runs"@,
            i as int,
        )),
{
    match doc {
        Json::Object(members) => {
            let mut i: usize = 0;
            while i < members.len()
                invariant
                    *doc == Json::Object(*members),
                    i <= members@.len(),
                    forall|j: int| 0 <= j < i ==> #[trigger] members@[j].0@ != "runs"@,
                decreases members@.len() - i,
            {
                if same_text(members[i].0.as_str(), "runs") {
                    assert(is_first_member(members@, "runs"@, i as int));
                    assert forall|k: int| is_first_member(members@, "runs"@, k) implies k == i as int by {
                        if k < i {
                            assert(members@[k].0@ != "runs"@);
                        } else if k > i {
                            assert(members@[i as int].0@ != "runs"@);
                        }
                    }
                    return match &members[i].1 {
                        Json::Array(_) => Some(i),
                        _ => None,
                    };
                }
                i += 1;
            }
            None
        },
        _ => None,
    }
}

/// Whether `doc` is an object with a member named `key`.
fn has_key(doc: &Json, key: &str) -> (found: bool)
    ensures
        found == has_member(*doc, key@),
{
    match doc {
        Json::Object(members) => {
            let mut i: usize = 0;
            while i < members.len()
                invariant
                    *doc == Json::Object(*members),
                    i <= members@.len(),
                    forall|j: int| 0 <= j < i ==> #[trigger] members@[j].0@ != key@,
                decreases members@.len() - i,
            {
                if same_text(members[i].0.as_str(), key) {
                    assert(members@[i as int].0@ == key@);
                    assert(doc->Object_0@[i as int].0@ == key@);
                    return true;
                }
                i += 1;
            }
            false
        },
        _ => false,
    }
}

impl SarifReport {
    /// Takes in the documents that a hook printed, as the JSON parser read
    /// them from `bytes` in order (a parse failure ends the list).  Each
    /// document is a SARIF log whose runs are collected, or a single run.  A
    /// stream that is not blank must hold at least one document.
    #[verifier::loop_isolation(false)]
    pub fn push_documents(&mut self, documents: Vec<Result<Json, String>>, bytes: &[u8]) -> (result:
        Result<(), SarifError>)
        ensures
            final(self).version == old(self).version,
            final(self).schema == old(self).schema,
            pushed(old(self).runs@, final(self).runs@, documents@, bytes@, result),
    {
        let ghost target = absorb(self.runs@, documents@);
        let ghost all = documents@;
        let total = documents.len();
        let mut docs = documents;
        while docs.len() > 0
            invariant
                target == absorb(old(self).runs@, all),
                absorb(self.runs@, docs@) == target,
                self.version == old(self).version,
                self.schema == old(self).schema,
            decreases docs@.len(),
        {
            let ghost before = docs@;
            let item = docs.remove(0);
            assert(docs@ =~= before.drop_first());
            match item {
                Err(detail) => {
                    return Err(SarifError::InvalidJson(detail));
                },
                Ok(doc) => match runs_position(&doc) {
                    Some(i) => {
                        let ghost carried = carried_runs(doc);
                        match doc {
                            Json::Object(mut members) => {
                                let (_, value) = members.remove(i);
                                match value {
                                    Json::Array(mut items) => {
                                        assert(carried == Some(items@));
                                        self.runs.append(&mut items);
                                    },
                                    _ => {
                                        assert(false);
                                    },
                                }
                            },
                            _ => {
                                assert(false);
                            },
                        }
                    },
                    None => {
                        if has_key(&doc, "tool") {
                            self.runs.push(doc);
                        } else {
                            return Err(SarifError::NotSarif);
                        }
                    },
                },
            }
        }
        if total == 0 && !is_blank(bytes) {
            return Err(SarifError::NotSarif);
        }
        Ok(())
    }

    /// Takes in the SARIF output of a hook: the JSON documents in `bytes`,
    /// each a SARIF log whose runs are collected or a single run.
    pub fn push_json(&mut self, bytes: &[u8]) -> (result: Result<(), SarifError>)
        ensures
            final(self).version == old(self).version,
            final(self).schema == old(self).schema,
            exists|documents: Seq<Result<Json, String>>|
                #[trigger] doc_models(documents) == json_stream(bytes@) && pushed(
                    old(self).runs@,
                    final(self).runs@,
                    documents,
                    bytes@,
                    result,
                ),
    {
        let documents = parse_json_stream(bytes);
        let ghost read = documents@;
        let result = self.push_documents(documents, bytes);
        assert(doc_models(read) == json_stream(bytes@));
        result
    }

    /// Whether no run has been collected.
    pub fn is_empty(&self) -> (empty: bool)
        ensures
            empty == (self.runs@.len() == 0),
    {
        self.runs.len() == 0
    }
}

} // verus!
