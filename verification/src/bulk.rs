//! The Elasticsearch bulk protocol as the input component speaks it: a body of
//! lines where an action line (`{"create": ...}`) announces the document on the
//! line after it. Every accepted document becomes a log; every document line
//! gets an item in the reply.
use vstd::prelude::*;
use vstd::string::StringSliceAdditionalSpecFns;
use crate::json::{
    json_accepts, json_member, json_member_of, json_value, parse_json, JsonMember, JsonMemberView,
};
use crate::lines::{split_lines, text_lines};
use crate::text::{decimal, decimal_string, is_blank, is_blank_text};

verus! {

broadcast use vstd::utf8::group_utf8_lib;

/// A source of random numbers.
#[verifier::external_type_specification]
#[verifier::external_body]
pub struct ExRng(fastrand::Rng);

/// Calls `fastrand::Rng::u64` with the range `0..u64::MAX`: by its source, the
/// number lies in that range. Which one is left to chance.
#[verifier::external_body]
fn random_below_max(rng: &fastrand::Rng) -> (r: u64)
    ensures
        r < u64::MAX,
{
    rng.u64(0..u64::MAX)
}

/// The index a document goes to when its action names none.
pub open spec fn default_index() -> Seq<char> {
    "default"@
}

/// The index an action line names.
pub open spec fn index_name(m: JsonMemberView) -> Seq<char> {
    match m {
        JsonMemberView::Text(s) => s,
        _ => default_index(),
    }
}

/// The document id an action line gives, if it gives one as a string.
pub open spec fn given_id(m: JsonMemberView) -> Option<Seq<char>> {
    match m {
        JsonMemberView::Text(s) => Some(s),
        _ => None,
    }
}

/// What the next line is taken for.
pub enum Awaiting {
    /// An action line.
    Action,
    /// The document of a create action, for this index and with this id, if
    /// the action gave one.
    Document { index: String, id: Option<String> },
}

/// The mathematical form of `Awaiting`.
pub enum AwaitingView {
    Action,
    Document { index: Seq<char>, id: Option<Seq<char>> },
}

impl View for Awaiting {
    type V = AwaitingView;

    open spec fn view(&self) -> AwaitingView {
        match self {
            Awaiting::Action => AwaitingView::Action,
            Awaiting::Document { index, id } => AwaitingView::Document {
                index: index@,
                id: match id {
                    Some(s) => Some(s@),
                    None => None,
                },
            },
        }
    }
}

/// The reply's entry for one document line.
pub struct BulkItem {
    pub index: String,
    pub id: String,
    /// Whether the document was accepted (status 201) or malformed (status 400).
    pub created: bool,
}

/// The mathematical form of `BulkItem`.
pub struct BulkItemView {
    pub index: Seq<char>,
    pub id: Seq<char>,
    pub created: bool,
}

impl View for BulkItem {
    type V = BulkItemView;

    open spec fn view(&self) -> BulkItemView {
        BulkItemView { index: self.index@, id: self.id@, created: self.created }
    }
}

impl BulkItem {
    /// The status the reply gives the item: 201 for an accepted document, 400
    /// for a malformed one.
    pub fn status(&self) -> (code: u16)
        ensures
            code == if self.created { 201u16 } else { 400u16 },
    {
        if self.created {
            201
        } else {
            400
        }
    }
}

/// An accepted document, to be sent on as a log.
pub struct BulkDocument {
    /// The document line, which becomes the log's message.
    pub text: String,
    /// The index it was sent to.
    pub index: String,
    /// The document as `serde_json` parsed it.
    pub event: serde_json::Value,
}

/// The mathematical form of a `BulkDocument`.
pub struct BulkDocumentView {
    pub text: Seq<char>,
    pub index: Seq<char>,
    pub event: serde_json::Value,
}

impl View for BulkDocument {
    type V = BulkDocumentView;

    open spec fn view(&self) -> BulkDocumentView {
        BulkDocumentView { text: self.text@, index: self.index@, event: self.event }
    }
}

/// How far the processing of a bulk body has come.
pub struct BulkState {
    pub awaiting: Awaiting,
    /// The number of lines read so far, blank lines between actions not counted.
    pub line_no: usize,
    pub indexed: usize,
    pub failed: usize,
    pub items: Vec<BulkItem>,
    pub documents: Vec<BulkDocument>,
    /// Set when an action line is not JSON: the number of the line.
    pub error: Option<usize>,
}

/// The mathematical form of `BulkState`.
pub struct BulkView {
    pub awaiting: AwaitingView,
    pub line_no: nat,
    pub indexed: nat,
    pub failed: nat,
    pub items: Seq<BulkItemView>,
    pub documents: Seq<BulkDocumentView>,
    pub error: Option<nat>,
}

impl View for BulkState {
    type V = BulkView;

    open spec fn view(&self) -> BulkView {
        BulkView {
            awaiting: self.awaiting@,
            line_no: self.line_no as nat,
            indexed: self.indexed as nat,
            failed: self.failed as nat,
            items: self.items@.map_values(|i: BulkItem| i@),
            documents: self.documents@.map_values(|d: BulkDocument| d@),
            error: match self.error {
                Some(n) => Some(n as nat),
                None => None,
            },
        }
    }
}

/// The state before the first line.
pub open spec fn bulk_start() -> BulkView {
    BulkView {
        awaiting: AwaitingView::Action,
        line_no: 0,
        indexed: 0,
        failed: 0,
        items: Seq::empty(),
        documents: Seq::empty(),
        error: None,
    }
}

/// The state after one more line. `fresh` is the random number whose decimal
/// form becomes the id of a document whose action gave none.
pub open spec fn bulk_next(s: BulkView, line: Seq<char>, fresh: u64) -> BulkView {
    if s.error is Some {
        s
    } else {
        match s.awaiting {
            AwaitingView::Action => {
                if is_blank_text(line) {
                    s
                } else if !json_accepts(line) {
                    BulkView { error: Some(s.line_no), ..s }
                } else if json_member_of(line, "create"@) is Absent {
                    BulkView { line_no: s.line_no + 1, ..s }
                } else {
                    BulkView {
                        awaiting: AwaitingView::Document {
                            index: index_name(json_member_of(line, "_index"@)),
                            id: given_id(json_member_of(line, "_id"@)),
                        },
                        line_no: s.line_no + 1,
                        ..s
                    }
                }
            },
            AwaitingView::Document { index, id } => {
                let doc_id = match id {
                    Some(i) => i,
                    None => decimal(fresh as nat),
                };
                if json_accepts(line) {
                    BulkView {
                        awaiting: AwaitingView::Action,
                        line_no: s.line_no + 1,
                        indexed: s.indexed + 1,
                        items: s.items.push(BulkItemView { index, id: doc_id, created: true }),
                        documents: s.documents.push(
                            BulkDocumentView { text: line, index, event: json_value(line) },
                        ),
                        ..s
                    }
                } else {
                    BulkView {
                        awaiting: AwaitingView::Action,
                        line_no: s.line_no + 1,
                        failed: s.failed + 1,
                        items: s.items.push(BulkItemView { index, id: doc_id, created: false }),
                        ..s
                    }
                }
            },
        }
    }
}

/// The state after `lines`, where `fresh[k]` is the random number drawn at line `k`.
pub open spec fn bulk_run(lines: Seq<Seq<char>>, fresh: Seq<u64>) -> BulkView
    decreases lines.len(),
{
    if lines.len() == 0 {
        bulk_start()
    } else {
        bulk_next(
            bulk_run(lines.drop_last(), fresh.take(lines.len() - 1)),
            lines.last(),
            fresh[lines.len() - 1],
        )
    }
}

/// The lines of a body, as text.
pub open spec fn body_lines(body: Seq<char>) -> Seq<Seq<char>> {
    text_lines(vstd::utf8::encode_utf8(body)).map_values(|l: Seq<u8>| vstd::utf8::decode_utf8(l))
}

/// Whether the next line is a document line whose action gave no id, so that
/// a random id must be drawn for it.
pub open spec fn needs_fresh_id(s: BulkView) -> bool {
    s.error is None && s.awaiting matches AwaitingView::Document { id: None, .. }
}

impl BulkState {
    /// The state before the first line of a body.
    pub fn new() -> (s: BulkState)
        ensures
            s@ == bulk_start(),
            s.well_counted(),
    {
        let s = BulkState {
            awaiting: Awaiting::Action,
            line_no: 0,
            indexed: 0,
            failed: 0,
            items: Vec::new(),
            documents: Vec::new(),
            error: None,
        };
        proof {
            assert(s@.items =~= Seq::<BulkItemView>::empty());
            assert(s@.documents =~= Seq::<BulkDocumentView>::empty());
        }
        s
    }

    /// The counters agree with the items and documents, and every item was
    /// a counted line.
    pub open spec fn well_counted(&self) -> bool {
        &&& self.indexed + self.failed == self.items@.len()
        &&& self.items@.len() <= self.line_no
        &&& self.documents@.len() == self.indexed
    }

    /// Whether the next line needs a random id.
    pub fn wants_fresh_id(&self) -> (b: bool)
        ensures
            b == needs_fresh_id(self@),
    {
        self.error.is_none() && match &self.awaiting {
            Awaiting::Document { id: None, .. } => true,
            _ => false,
        }
    }

    /// Takes in one line of the body. `fresh` is the random number to name the
    /// document by when this is a document line whose action gave no id.
    pub fn take_line(&mut self, line: &str, fresh: u64)
        requires
            old(self).well_counted(),
            old(self).line_no < usize::MAX,
        ensures
            final(self)@ == bulk_next(old(self)@, line@, fresh),
            final(self).well_counted(),
            final(self).line_no <= old(self).line_no + 1,
    {
        if self.error.is_some() {
            return;
        }
        let ghost before = self@;
        match &self.awaiting {
            Awaiting::Action => {
                if is_blank(line) {
                    return;
                }
                match parse_json(line) {
                    Err(_) => {
                        self.error = Some(self.line_no);
                    },
                    Ok(_) => {
                        let create = json_member(line, "create");
                        match create {
                            JsonMember::Absent => {},
                            _ => {
                                let index = match json_member(line, "_index") {
                                    JsonMember::Text(s) => s,
                                    _ => String::from_str("default"),
                                };
                                let id = match json_member(line, "_id") {
                                    JsonMember::Text(s) => Some(s),
                                    _ => None,
                                };
                                self.awaiting = Awaiting::Document { index, id };
                            },
                        }
                        self.line_no = self.line_no + 1;
                    },
                }
                proof {
                    assert(self@.items =~= before.items);
                    assert(self@.documents =~= before.documents);
                }
            },
            Awaiting::Document { index, id } => {
                let doc_id = match id {
                    Some(i) => i.clone(),
                    None => decimal_string(fresh),
                };
                let index = index.clone();
                match parse_json(line) {
                    Ok(event) => {
                        self.indexed = self.indexed + 1;
                        self.items.push(BulkItem { index: index.clone(), id: doc_id, created: true });
                        self.documents.push(
                            BulkDocument { text: String::from_str(line), index, event },
                        );
                    },
                    Err(_) => {
                        self.failed = self.failed + 1;
                        self.items.push(BulkItem { index, id: doc_id, created: false });
                    },
                }
                self.awaiting = Awaiting::Action;
                self.line_no = self.line_no + 1;
                proof {
                    assert(self@.items =~= before.items.push(self.items@.last()@));
                    assert(self@.documents =~= before.documents
                        || self@.documents =~= before.documents.push(self.documents@.last()@));
                }
            },
        }
    }
}

/// The invalid action line, by its number (counted from 0, blank lines between
/// actions not counted).
pub struct InvalidOperation {
    pub line: usize,
}

/// The reply to a bulk request that was read to its end.
pub struct BulkReport {
    /// The number of documents accepted.
    pub took: usize,
    /// Whether some document was malformed.
    pub errors: bool,
    pub items: Vec<BulkItem>,
}

/// What came of a bulk request: the documents to send on as logs, and the reply.
/// Documents before an invalid action line are sent on too.
pub struct BulkOutcome {
    pub documents: Vec<BulkDocument>,
    pub reply: Result<BulkReport, InvalidOperation>,
}

/// The outcome that the state after the last line gives.
pub open spec fn outcome_matches(out: BulkOutcome, s: BulkView) -> bool {
    &&& out.documents@.map_values(|d: BulkDocument| d@) == s.documents
    &&& match s.error {
        Some(n) => out.reply matches Err(e) && e.line == n,
        None => out.reply matches Ok(r) && r.took == s.indexed && r.errors == (s.failed > 0)
            && r.items@.map_values(|i: BulkItem| i@) == s.items,
    }
}

/// Once an action line has failed, later lines change nothing.
pub proof fn lemma_error_absorbs(lines: Seq<Seq<char>>, fresh: Seq<u64>, k: int)
    requires
        0 <= k <= lines.len(),
        fresh.len() == lines.len(),
        bulk_run(lines.take(k), fresh.take(k)).error is Some,
    ensures
        bulk_run(lines, fresh) == bulk_run(lines.take(k), fresh.take(k)),
    decreases lines.len() - k,
{
    if k < lines.len() {
        let l2 = lines.take(k + 1);
        let f2 = fresh.take(k + 1);
        assert(l2.drop_last() =~= lines.take(k));
        assert(f2.take(k) =~= fresh.take(k));
        lemma_error_absorbs(lines, fresh, k + 1);
    } else {
        assert(lines.take(k) =~= lines);
        assert(fresh.take(k) =~= fresh);
    }
}

/// Reads a bulk request body line by line. Random ids are drawn from `rng` for
/// documents whose action gives none: whatever numbers come, the outcome is the
/// one `bulk_run` gives for them.
pub fn process_bulk(body: &str, rng: &fastrand::Rng) -> (out: BulkOutcome)
    ensures
        exists|fresh: Seq<u64>|
            #![trigger bulk_run(body_lines(body@), fresh)]
            fresh.len() == body_lines(body@).len() && (forall|k: int|
                0 <= k < fresh.len() ==> #[trigger] fresh[k] < u64::MAX) && outcome_matches(
                out,
                bulk_run(body_lines(body@), fresh),
            ),
{
    let lines = split_lines(body);
    let ghost all = body_lines(body@);
    proof {
        assert(all.len() == lines@.len());
        assert forall|k: int| 0 <= k < lines@.len() implies #[trigger] lines@[k]@ == all[k] by {
            assert(lines@[k].spec_bytes() == text_lines(body.spec_bytes())[k]);
        }
    }
    let n: usize = lines.len();
    let mut state = BulkState::new();
    let ghost mut fresh: Seq<u64> = Seq::empty();
    let mut i: usize = 0;
    proof {
        assert(all.take(0) =~= Seq::<Seq<char>>::empty());
    }
    while i < n
        invariant
            n == lines@.len(),
            n == all.len(),
            all == body_lines(body@),
            forall|k: int| 0 <= k < lines@.len() ==> #[trigger] lines@[k]@ == all[k],
            i <= n,
            fresh.len() == i,
            forall|k: int| 0 <= k < fresh.len() ==> #[trigger] fresh[k] < u64::MAX,
            state@ == bulk_run(all.take(i as int), fresh),
            state.well_counted(),
            state.line_no <= i,
            state.error is None,
        decreases n - i,
    {
        let line: &str = lines[i];
        let draw: u64 = if state.wants_fresh_id() {
            random_below_max(rng)
        } else {
            0
        };
        let ghost prev = state@;
        state.take_line(line, draw);
        proof {
            let f2 = fresh.push(draw);
            assert(all.take(i + 1).drop_last() =~= all.take(i as int));
            assert(f2.take(i as int) =~= fresh);
            assert(all.take(i + 1).last() == all[i as int]);
            fresh = f2;
        }
        i = i + 1;
        if state.error.is_some() {
            let ghost full = fresh.add(Seq::new((n - i) as nat, |k: int| 0u64));
            proof {
                assert(full.take(i as int) =~= fresh);
                lemma_error_absorbs(all, full, i as int);
            }
            let line_no: usize = match state.error {
                Some(x) => x,
                None => 0,
            };
            let out = BulkOutcome {
                documents: state.documents,
                reply: Err(InvalidOperation { line: line_no }),
            };
            proof {
                assert(full.len() == all.len());
                assert forall|k: int| 0 <= k < full.len() implies #[trigger] full[k] < u64::MAX by {
                    if k >= i {
                        assert(full[k] == 0u64);
                    } else {
                        assert(full[k] == fresh[k]);
                    }
                }
                assert(bulk_run(all, full) == state@);
                assert(outcome_matches(out, bulk_run(all, full)));
                assert(outcome_matches(out, bulk_run(body_lines(body@), full)));
            }
            return out;
        }
    }
    proof {
        assert(all.take(n as int) =~= all);
    }
    BulkOutcome {
        documents: state.documents,
        reply: Ok(BulkReport { took: state.indexed, errors: state.failed > 0, items: state.items }),
    }
}

/// The number of items for accepted documents.
pub open spec fn count_created(items: Seq<BulkItemView>) -> nat
    decreases items.len(),
{
    if items.len() == 0 {
        0
    } else {
        count_created(items.drop_last()) + if items.last().created {
            1nat
        } else {
            0nat
        }
    }
}

/// Every document line gets one item in the reply: `took` counts the accepted
/// ones, each of which is sent on as a log, and the reply reports errors
/// exactly when some document was malformed.
pub proof fn lemma_bulk_counts(lines: Seq<Seq<char>>, fresh: Seq<u64>)
    ensures
        ({
            let s = bulk_run(lines, fresh);
            &&& s.indexed == count_created(s.items)
            &&& s.items.len() == s.indexed + s.failed
            &&& s.documents.len() == s.indexed
            &&& (s.failed > 0) <==> (exists|k: int| 0 <= k < s.items.len() && !(#[trigger] s.items[k]).created)
        }),
    decreases lines.len(),
{
    if lines.len() > 0 {
        let prev = bulk_run(lines.drop_last(), fresh.take(lines.len() - 1));
        lemma_bulk_counts(lines.drop_last(), fresh.take(lines.len() - 1));
        let s = bulk_run(lines, fresh);
        if s.items.len() == prev.items.len() + 1 {
            assert(s.items.drop_last() =~= prev.items);
            if s.failed > 0 && prev.failed == 0 {
                assert(!s.items[s.items.len() - 1].created);
            }
            if s.failed == 0 {
                assert forall|k: int| 0 <= k < s.items.len() implies (#[trigger] s.items[k]).created by {
                    if k < prev.items.len() {
                        assert(s.items[k] == prev.items[k]);
                    }
                }
            }
            if prev.failed > 0 {
                let k = choose|k: int| 0 <= k < prev.items.len() && !(#[trigger] prev.items[k]).created;
                assert(s.items[k] == prev.items[k]);
            }
        }
    }
}

/// A create action and the document line after it give one reply item: the
/// item goes to the index the action names (`default` when it names none as a
/// string), keeps the id the action gives (else the decimal form of the
/// number drawn for it), and is accepted exactly when the document is JSON;
/// only an accepted document is passed on, with its text, that index and the
/// value `serde_json` parses from it. This holds whether the document is
/// accepted or malformed.
pub proof fn lemma_action_then_document(
    s: BulkView,
    action: Seq<char>,
    document: Seq<char>,
    f1: u64,
    f2: u64,
)
    requires
        s.error is None,
        s.awaiting == AwaitingView::Action,
        !is_blank_text(action),
        json_accepts(action),
        !(json_member_of(action, "create"@) is Absent),
    ensures
        ({
            let t = bulk_next(bulk_next(s, action, f1), document, f2);
            let index = index_name(json_member_of(action, "_index"@));
            let id = match json_member_of(action, "_id"@) {
                JsonMemberView::Text(i) => i,
                _ => decimal(f2 as nat),
            };
            &&& t.error is None
            &&& t.awaiting == AwaitingView::Action
            &&& t.line_no == s.line_no + 2
            &&& t.items == s.items.push(
                BulkItemView { index, id, created: json_accepts(document) },
            )
            &&& t.documents == if json_accepts(document) {
                s.documents.push(
                    BulkDocumentView { text: document, index, event: json_value(document) },
                )
            } else {
                s.documents
            }
            &&& t.indexed + t.failed == s.indexed + s.failed + 1
        }),
{
}

} // verus!
