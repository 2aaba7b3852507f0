//! Channel histories kept as Loro CRDT documents, so that peers can exchange
//! and merge them. Each item of a document's list `messages` is a message in
//! JSON; the records are written and read as JSON outside this module.

use vstd::prelude::*;

verus! {

/// A channel's history: a Loro document holding the list `messages`.
#[verifier::external_body]
pub struct CrdtChannelDoc {
    doc: loro::LoroDoc,
}

#[verifier::external_type_specification]
#[verifier::external_body]
pub struct ExLoroError(loro::LoroError);

#[verifier::external_type_specification]
#[verifier::external_body]
pub struct ExLoroEncodeError(loro::LoroEncodeError);

#[verifier::external_type_specification]
#[verifier::external_body]
pub struct ExJsonError(serde_json::Error);

/// The items of the document's list named `list`, in list order, each as
/// the JSON text that reading it back gives.
pub uninterp spec fn crdt_list_items(d: CrdtChannelDoc, list: Seq<char>) -> Seq<Seq<char>>;

/// Nothing has been imported into or appended to the document since it was
/// made.
pub uninterp spec fn crdt_untouched(d: CrdtChannelDoc) -> bool;

/// The document's version (`oplog_vv`), as `VersionVector::encode` writes it.
pub uninterp spec fn crdt_version(d: CrdtChannelDoc) -> Seq<u8>;

/// Every change block of the document's history parses
/// (`check_history_parsable`), so that its operations can be exported.
pub uninterp spec fn crdt_exportable(d: CrdtChannelDoc) -> bool;

/// The document after importing `data` (a snapshot or updates) into `d`:
/// the merge of both histories; `None` when Loro refuses the bytes.
pub uninterp spec fn crdt_import(d: CrdtChannelDoc, data: Seq<u8>) -> Option<CrdtChannelDoc>;

/// The lists of a document that nothing was done to, after it imported
/// `data`: the items of the list `list`, or `None` when the bytes are
/// refused. (A new document differs from another only by its peer id, which
/// no list shows.)
pub uninterp spec fn crdt_fresh_import(data: Seq<u8>, list: Seq<char>) -> Option<Seq<Seq<char>>>;

/// `serde_json::from_str::<Value>` accepts the text.
pub uninterp spec fn json_value_text(json: Seq<char>) -> bool;

/// The JSON text that an item pushed as the JSON text `json` reads back as.
pub uninterp spec fn loro_item(json: Seq<char>) -> Seq<char>;

/// The name of the list that holds a channel's messages.
pub open spec fn messages_list() -> Seq<char> {
    "messages"@
}

/// The encoded version of a document with no operations: an empty version
/// vector, which `postcard` writes as the single length byte 0.
pub open spec fn empty_version() -> Seq<u8> {
    seq![0u8]
}

impl CrdtChannelDoc {
    /// The messages, as JSON texts, in list order.
    pub open spec fn items(&self) -> Seq<Seq<char>> {
        crdt_list_items(*self, messages_list())
    }

    /// The items of the list `list`.
    pub open spec fn list(&self, list: Seq<char>) -> Seq<Seq<char>> {
        crdt_list_items(*self, list)
    }

    /// Nothing was imported or appended since the document was made.
    pub open spec fn untouched(&self) -> bool {
        crdt_untouched(*self)
    }

    /// The encoded version.
    pub open spec fn version_bytes(&self) -> Seq<u8> {
        crdt_version(*self)
    }

    /// Its operations can be exported.
    pub open spec fn exportable(&self) -> bool {
        crdt_exportable(*self)
    }

    /// The document after importing `data`, if Loro accepts it.
    pub open spec fn imported(&self, data: Seq<u8>) -> Option<CrdtChannelDoc> {
        crdt_import(*self, data)
    }

    /// The same lists as `other`.
    pub open spec fn same_lists(&self, other: CrdtChannelDoc) -> bool {
        forall|l: Seq<char>| #[trigger] crdt_list_items(*self, l) == crdt_list_items(other, l)
    }

    /// A document that nothing was done to would, after importing `data`,
    /// hold exactly this document's lists.
    pub open spec fn carried_by(&self, data: Seq<u8>) -> bool {
        forall|l: Seq<char>| #[trigger] crdt_fresh_import(data, l) == Some(crdt_list_items(*self, l))
    }
}

/// The list of a channel's messages.
fn messages_list_name() -> (res: &'static str)
    ensures
        res@ == messages_list(),
{
    "messages"
}

/// Why a document operation failed: the message of the underlying error.
#[derive(Debug, Clone, PartialEq, Eq)]
pub enum CrdtError {
    /// Loro refused the operation.
    Loro(String),
    /// Loro could not encode the document.
    LoroEncode(String),
    /// The text was not JSON.
    Json(String),
}

/// `LoroDoc::new`: an empty document, whose version is empty and whose
/// (empty) history exports.
#[verifier::external_body]
fn loro_doc_new() -> (res: CrdtChannelDoc)
    ensures
        forall|l: Seq<char>| #[trigger] crdt_list_items(res, l) == Seq::<Seq<char>>::empty(),
        crdt_untouched(res),
        crdt_exportable(res),
{
    CrdtChannelDoc { doc: loro::LoroDoc::new() }
}

/// `LoroDoc::import`: merges a snapshot or updates into the document. Into a
/// document that nothing was done to, the outcome depends on the bytes alone.
#[verifier::external_body]
fn loro_import(d: &mut CrdtChannelDoc, data: &[u8]) -> (res: Result<(), loro::LoroError>)
    ensures
        res is Ok <==> crdt_import(*old(d), data@) is Some,
        res is Ok ==> final(d).same_lists(old(d).imported(data@)->0),
        res is Ok ==> final(d).version_bytes() == old(d).imported(data@)->0.version_bytes(),
        res is Ok ==> !final(d).untouched(),
        old(d).untouched() ==> (res is Ok <==> crdt_fresh_import(data@, messages_list()) is Some),
        old(d).untouched() && res is Ok ==> final(d).carried_by(data@),
{
    match d.doc.import(data) {
        Ok(_) => Ok(()),
        Err(e) => Err(e),
    }
}

/// `serde_json::from_str` into a JSON value, `LoroList::push` of it onto the
/// list named `list`, and `LoroDoc::commit`: the item is added at the end.
/// Pushing onto a list of a document that is not checked out to an old
/// version does not fail; only text that is not JSON is refused, and then
/// nothing changes.
#[verifier::external_body]
fn loro_push_json(d: &mut CrdtChannelDoc, list: &str, json: &str) -> (res: Result<Result<(), loro::LoroError>, serde_json::Error>)
    ensures
        res is Ok <==> json_value_text(json@),
        res matches Ok(r) ==> r is Ok,
        res is Ok ==> final(d).list(list@) == old(d).list(list@).push(loro_item(json@)),
        res is Ok ==> forall|l: Seq<char>| l != list@ ==> #[trigger] final(d).list(l) == old(d).list(l),
        res is Ok ==> !final(d).untouched(),
        res is Ok ==> (final(d).exportable() == old(d).exportable()),
        res is Err ==> *final(d) == *old(d),
{
    match serde_json::from_str::<serde_json::Value>(json) {
        Ok(v) => {
            let r = d.doc.get_list(list).push(loro::LoroValue::from(v));
            d.doc.commit();
            Ok(r.map(|_| ()))
        },
        Err(e) => Err(e),
    }
}

/// `LoroDoc::export(ExportMode::Snapshot)`: the whole document; a document
/// that nothing was done to and imports it holds the same lists. It is
/// refused when the history does not parse (and on the encoder's internal
/// failures, which are not stated).
#[verifier::external_body]
fn loro_export_snapshot(d: &CrdtChannelDoc) -> (res: Result<Vec<u8>, loro::LoroEncodeError>)
    ensures
        res is Ok ==> d.exportable(),
        res matches Ok(b) ==> d.carried_by(b@),
{
    d.doc.export(loro::ExportMode::Snapshot)
}

/// `LoroDoc::export(ExportMode::updates(vv))`, with the version decoded by
/// `VersionVector::decode`: the operations that version does not have. A
/// version that a document gave always decodes; the export succeeds exactly
/// when the history parses. From the empty version that is the whole
/// history, so a document that nothing was done to and imports it holds the
/// same lists.
#[verifier::external_body]
fn loro_export_updates(d: &CrdtChannelDoc, vv: &[u8]) -> (res: Result<Result<Vec<u8>, loro::LoroEncodeError>, loro::LoroError>)
    ensures
        (exists|e: CrdtChannelDoc| vv@ == crdt_version(e)) ==> res is Ok,
        res matches Ok(r) ==> (r is Ok <==> d.exportable()),
        vv@ == empty_version() ==> (res matches Ok(Ok(b)) ==> d.carried_by(b@)),
{
    match loro::VersionVector::decode(vv) {
        Ok(v) => Ok(d.doc.export(loro::ExportMode::updates(&v))),
        Err(e) => Err(e),
    }
}

/// `LoroDoc::oplog_vv`, encoded by `VersionVector::encode`: the document's
/// version; that of a document with no operations is the empty version.
/// Documents with the same version hold the same operations, and so (being
/// a CRDT) the same lists.
#[verifier::external_body]
fn loro_version(d: &CrdtChannelDoc) -> (res: Vec<u8>)
    ensures
        res@ == d.version_bytes(),
        d.untouched() ==> res@ == empty_version(),
        forall|e: CrdtChannelDoc| #[trigger] crdt_version(e) == res@ ==> e.same_lists(*d),
{
    d.doc.oplog_vv().encode()
}

/// `LoroList::get_value` of the list named `list`, each item read back as a
/// JSON text (`to_json_value`, then `to_string`).
#[verifier::external_body]
fn loro_item_texts(d: &CrdtChannelDoc, list: &str) -> (res: Vec<String>)
    ensures
        res@.map_values(|t: String| t@) == d.list(list@),
{
    match d.doc.get_list(list).get_value() {
        loro::LoroValue::List(items) => items.iter().map(|v| loro::ToJson::to_json_value(v).to_string()).collect(),
        _ => Vec::new(),
    }
}

/// The message of a Loro error (its `Display` text).
#[verifier::external_body]
fn loro_error_text(e: &loro::LoroError) -> String {
    e.to_string()
}

/// The message of a Loro encoding error (its `Display` text).
#[verifier::external_body]
fn loro_encode_error_text(e: &loro::LoroEncodeError) -> String {
    e.to_string()
}

/// The message of a JSON error (its `Display` text).
#[verifier::external_body]
fn json_error_text(e: &serde_json::Error) -> String {
    e.to_string()
}

impl CrdtChannelDoc {
    /// An empty history, with the empty version, that exports.
    pub fn new() -> (res: Self)
        ensures
            res.items() == Seq::<Seq<char>>::empty(),
            res.untouched(),
            res.exportable(),
    {
        loro_doc_new()
    }

    /// The history a snapshot (or a run of updates) carries: it is accepted
    /// exactly when a new document accepts the bytes, and then holds the
    /// messages they carry.
    pub fn from_snapshot(bytes: &[u8]) -> (res: Result<Self, CrdtError>)
        ensures
            res is Ok <==> crdt_fresh_import(bytes@, messages_list()) is Some,
            res matches Ok(d) ==> d.carried_by(bytes@),
            res matches Ok(d) ==> Some(d.items()) == crdt_fresh_import(bytes@, messages_list()),
            res matches Err(e) ==> e is Loro,
    {
        let mut d = loro_doc_new();
        match loro_import(&mut d, bytes) {
            Ok(()) => Ok(d),
            Err(e) => Err(CrdtError::Loro(loro_error_text(&e))),
        }
    }

    /// Appends a message given as JSON text: it succeeds exactly when the
    /// text is JSON, and then the message is the last item; otherwise nothing
    /// changes. A history that exports still does.
    pub fn append_json(&mut self, json: &str) -> (res: Result<(), CrdtError>)
        ensures
            res is Ok <==> json_value_text(json@),
            res is Ok ==> final(self).items() == old(self).items().push(loro_item(json@)),
            res is Ok ==> !final(self).untouched(),
            res is Ok ==> final(self).exportable() == old(self).exportable(),
            res is Err ==> *final(self) == *old(self),
            res matches Err(e) ==> e is Json,
    {
        let list = messages_list_name();
        match loro_push_json(self, list, json) {
            Ok(Ok(())) => Ok(()),
            Ok(Err(e)) => Err(CrdtError::Loro(loro_error_text(&e))),
            Err(e) => Err(CrdtError::Json(json_error_text(&e))),
        }
    }

    /// The operations that the version `vv` (encoded, as `version` gives
    /// it) lacks, for a peer that has it. A version that a document gave is
    /// always read; the export succeeds exactly when the history exports.
    /// From the empty version, a document that nothing was done to and
    /// imports the result holds the same messages.
    pub fn export_updates_from(&self, vv: &[u8]) -> (res: Result<Vec<u8>, CrdtError>)
        ensures
            (exists|e: CrdtChannelDoc| vv@ == crdt_version(e)) ==> (res is Ok <==> self.exportable()),
            vv@ == empty_version() ==> (res matches Ok(b) ==> self.carried_by(b@)),
            res matches Err(e) ==> (e is LoroEncode || e is Loro),
    {
        match loro_export_updates(self, vv) {
            Ok(Ok(b)) => Ok(b),
            Ok(Err(e)) => Err(CrdtError::LoroEncode(loro_encode_error_text(&e))),
            Err(e) => Err(CrdtError::Loro(loro_error_text(&e))),
        }
    }

    /// The whole history, for a new peer: a document that nothing was done
    /// to and imports it holds the same messages. Only a history that
    /// exports gives one.
    pub fn export_snapshot(&self) -> (res: Result<Vec<u8>, CrdtError>)
        ensures
            res is Ok ==> self.exportable(),
            res matches Ok(b) ==> self.carried_by(b@),
            res matches Err(e) ==> e is LoroEncode,
    {
        match loro_export_snapshot(self) {
            Ok(b) => Ok(b),
            Err(e) => Err(CrdtError::LoroEncode(loro_encode_error_text(&e))),
        }
    }

    /// Merges a snapshot or updates from another peer: it succeeds exactly
    /// when Loro accepts the bytes, and the history becomes the merge of both
    /// (`crdt_import`). Into a history that nothing was done to, it brings
    /// exactly the lists that `data` carries.
    pub fn import_data(&mut self, data: &[u8]) -> (res: Result<(), CrdtError>)
        ensures
            res is Ok <==> old(self).imported(data@) is Some,
            res is Ok ==> final(self).same_lists(old(self).imported(data@)->0),
            res is Ok ==> final(self).version_bytes() == old(self).imported(data@)->0.version_bytes(),
            old(self).untouched() ==> (res is Ok <==> crdt_fresh_import(data@, messages_list()) is Some),
            old(self).untouched() && res is Ok ==> final(self).carried_by(data@),
            res matches Err(e) ==> e is Loro,
    {
        match loro_import(self, data) {
            Ok(()) => Ok(()),
            Err(e) => Err(CrdtError::Loro(loro_error_text(&e))),
        }
    }

    /// The document's version, encoded; the empty version while nothing was
    /// done to it. Any two documents with the same version hold the same
    /// messages, however their operations arrived.
    pub fn version(&self) -> (res: Vec<u8>)
        ensures
            res@ == self.version_bytes(),
            self.untouched() ==> res@ == empty_version(),
            forall|e: CrdtChannelDoc| #[trigger] e.version_bytes() == res@ ==> e.same_lists(*self),
    {
        loro_version(self)
    }

    /// The messages as JSON texts, in list order.
    pub fn message_texts(&self) -> (res: Vec<String>)
        ensures
            res@.map_values(|t: String| t@) == self.items(),
    {
        let list = messages_list_name();
        loro_item_texts(self, list)
    }
}

} // verus!
