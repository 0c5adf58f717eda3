//! What the two components promise each other: a batch that the output
//! component sends is read back by the input component's bulk protocol as the
//! same logs, in order.
use vstd::prelude::*;
use vstd::utf8::{
    encode_scalar, encode_utf8, has_width_1_encoding, last_continuation_byte, leading_byte_width_2,
    leading_byte_width_3, leading_byte_width_4, second_last_continuation_byte,
    third_last_continuation_byte,
};
use crate::bulk::{
    body_lines, bulk_next, bulk_run, default_index, AwaitingView, BulkDocumentView, BulkItemView,
    BulkView,
};
use crate::json::{json_accepts, json_member_of, json_value};
use crate::lines::{lemma_newline_pieces, newline_byte, newline_pieces, text_lines, without_return};
use crate::output::{batch_text, entry_text};
use crate::text::{decimal, is_blank_text, is_white_space};

verus! {

broadcast use vstd::utf8::group_utf8_lib;

/// The action line the output component puts before each log.
pub open spec fn create_action() -> Seq<char> {
    "{\"create\":{}}"@
}

/// The lines of a batch of logs: a create action before each.
pub open spec fn batch_lines(logs: Seq<Seq<char>>) -> Seq<Seq<char>>
    decreases logs.len(),
{
    if logs.len() == 0 {
        Seq::empty()
    } else {
        batch_lines(logs.drop_last()).push(create_action()).push(logs.last())
    }
}

/// Lines, each ended by a line feed.
pub open spec fn joined(lines: Seq<Seq<char>>) -> Seq<char>
    decreases lines.len(),
{
    if lines.len() == 0 {
        Seq::empty()
    } else {
        joined(lines.drop_last()) + lines.last() + seq!['\n']
    }
}

/// A line that `str::lines` gives back unchanged: no line feed in it, and no
/// carriage return at its end.
pub open spec fn plain_line(l: Seq<char>) -> bool {
    &&& forall|i: int| 0 <= i < l.len() ==> l[i] != '\n'
    &&& l.len() > 0 ==> l.last() != '\r'
}

proof fn lemma_scalar_bytes(c: char)
    ensures
        encode_scalar(c as u32).len() > 0,
        forall|i: int|
            0 <= i < encode_scalar(c as u32).len() ==> (#[trigger] encode_scalar(c as u32)[i] == 10u8
                ==> c == '\n'),
        encode_scalar(c as u32).last() == 13u8 ==> c == '\r',
        c == '\n' ==> encode_scalar(c as u32) == seq![10u8],
{
    let v = c as u32;
    if has_width_1_encoding(v) {
        assert(v <= 0x7f ==> (v & 0x7f) as u8 == v) by (bit_vector);
        assert(v <= 0x7f ==> ((v as u8 == 10u8) == (v == 10u32))) by (bit_vector);
        assert(v <= 0x7f ==> ((v as u8 == 13u8) == (v == 13u32))) by (bit_vector);
    } else {
        assert(leading_byte_width_2(v) >= 0x80 && leading_byte_width_3(v) >= 0x80
            && leading_byte_width_4(v) >= 0x80 && last_continuation_byte(v) >= 0x80
            && second_last_continuation_byte(v) >= 0x80 && third_last_continuation_byte(v) >= 0x80)
            by (bit_vector);
    }
}

proof fn lemma_encode_concat(a: Seq<char>, b: Seq<char>)
    ensures
        encode_utf8(a + b) == encode_utf8(a) + encode_utf8(b),
    decreases a.len(),
{
    if a.len() == 0 {
        assert(a + b =~= b);
        assert(encode_utf8(a) + encode_utf8(b) =~= encode_utf8(b));
    } else {
        assert((a + b).drop_first() =~= a.drop_first() + b);
        assert((a + b)[0] == a[0]);
        lemma_encode_concat(a.drop_first(), b);
        assert(encode_utf8(a + b) =~= encode_utf8(a) + encode_utf8(b));
    }
}

proof fn lemma_encode_single(c: char)
    ensures
        encode_utf8(seq![c]) == encode_scalar(c as u32),
{
    assert(seq![c].drop_first() =~= Seq::<char>::empty());
    assert(seq![c][0] == c);
    assert(encode_utf8(Seq::<char>::empty()) =~= Seq::<u8>::empty());
    assert(encode_scalar(c as u32) + Seq::<u8>::empty() =~= encode_scalar(c as u32));
}

proof fn lemma_encode_plain(l: Seq<char>)
    requires
        plain_line(l),
    ensures
        forall|j: int| 0 <= j < encode_utf8(l).len() ==> encode_utf8(l)[j] != newline_byte(),
        without_return(encode_utf8(l)) == encode_utf8(l),
    decreases l.len(),
{
    if l.len() > 0 {
        lemma_scalar_bytes(l[0]);
        let rest = l.drop_first();
        if rest.len() > 0 {
            assert(rest.last() == l.last());
        }
        lemma_encode_plain(rest);
        let e = encode_utf8(l);
        let h = encode_scalar(l[0] as u32);
        assert forall|j: int| 0 <= j < e.len() implies e[j] != newline_byte() by {
            if j < h.len() {
                assert(e[j] == h[j]);
            } else {
                assert(e[j] == encode_utf8(rest)[j - h.len()]);
            }
        }
        assert(l =~= l.drop_last() + seq![l.last()]);
        lemma_encode_concat(l.drop_last(), seq![l.last()]);
        lemma_encode_single(l.last());
        lemma_scalar_bytes(l.last());
        assert(e.last() == encode_scalar(l.last() as u32).last());
    }
}

proof fn lemma_pieces_extend(s: Seq<u8>, x: Seq<u8>)
    requires
        forall|j: int| 0 <= j < x.len() ==> x[j] != newline_byte(),
    ensures
        newline_pieces(s + x) == newline_pieces(s).update(
            newline_pieces(s).len() - 1,
            newline_pieces(s).last() + x,
        ),
    decreases x.len(),
{
    lemma_newline_pieces(s);
    let p = newline_pieces(s);
    if x.len() == 0 {
        assert(s + x =~= s);
        assert(p.last() + x =~= p.last());
        assert(p.update(p.len() - 1, p.last() + x) =~= p);
    } else {
        assert((s + x).drop_last() =~= s + x.drop_last());
        assert((s + x).last() == x.last());
        lemma_pieces_extend(s, x.drop_last());
        let q = p.update(p.len() - 1, p.last() + x.drop_last());
        assert(q.last().push(x.last()) =~= p.last() + x);
        assert(q.update(q.len() - 1, q.last().push(x.last())) =~= p.update(
            p.len() - 1,
            p.last() + x,
        ));
    }
}

proof fn lemma_pieces_of_joined(lines: Seq<Seq<char>>)
    requires
        forall|k: int| 0 <= k < lines.len() ==> plain_line(#[trigger] lines[k]),
    ensures
        newline_pieces(encode_utf8(joined(lines))) == lines.map_values(|l: Seq<char>| encode_utf8(l)).push(
            Seq::<u8>::empty(),
        ),
    decreases lines.len(),
{
    if lines.len() == 0 {
        assert(lines.map_values(|l: Seq<char>| encode_utf8(l)).push(Seq::<u8>::empty()) =~= seq![
            Seq::<u8>::empty(),
        ]);
    } else {
        let prev = lines.drop_last();
        let l = lines.last();
        assert(plain_line(lines[lines.len() - 1]));
        lemma_pieces_of_joined(prev);
        let e0 = encode_utf8(joined(prev));
        let x = encode_utf8(l);
        lemma_encode_concat(joined(prev), l);
        lemma_encode_concat(joined(prev) + l, seq!['\n']);
        lemma_encode_single('\n');
        lemma_scalar_bytes('\n');
        lemma_encode_plain(l);
        let all = encode_utf8(joined(lines));
        assert(all =~= (e0 + x).push(10u8));
        assert(all.drop_last() =~= e0 + x);
        lemma_pieces_extend(e0, x);
        let p0 = newline_pieces(e0);
        assert(p0.last() + x =~= x);
        assert(newline_pieces(all) =~= p0.update(p0.len() - 1, x).push(Seq::<u8>::empty()));
        assert(p0.update(p0.len() - 1, x) =~= lines.map_values(|l: Seq<char>| encode_utf8(l)));
    }
}

/// Lines joined with line feeds are read back as the same lines.
pub proof fn lemma_joined_read_back(lines: Seq<Seq<char>>)
    requires
        forall|k: int| 0 <= k < lines.len() ==> plain_line(#[trigger] lines[k]),
    ensures
        body_lines(joined(lines)) == lines,
{
    lemma_pieces_of_joined(lines);
    let enc = lines.map_values(|l: Seq<char>| encode_utf8(l));
    let t = text_lines(encode_utf8(joined(lines)));
    assert forall|k: int| 0 <= k < lines.len() implies without_return(#[trigger] enc[k]) == enc[k] by {
        assert(plain_line(lines[k]));
        lemma_encode_plain(lines[k]);
    }
    assert(t =~= enc);
    assert(body_lines(joined(lines)) =~= lines);
}

proof fn lemma_batch_text_joined(logs: Seq<Seq<char>>)
    ensures
        batch_text(logs.map_values(|j: Seq<char>| Some(j))) == joined(batch_lines(logs)),
    decreases logs.len(),
{
    reveal_strlit("{\"create\":{}}\n");
    reveal_strlit("{\"create\":{}}");
    reveal_strlit("\n");
    if logs.len() > 0 {
        let prev = logs.drop_last();
        lemma_batch_text_joined(prev);
        let m = logs.map_values(|j: Seq<char>| Some(j));
        assert(m.drop_last() =~= prev.map_values(|j: Seq<char>| Some(j)));
        let b = batch_lines(logs);
        assert(b.drop_last().drop_last() =~= batch_lines(prev));
        assert("{\"create\":{}}\n"@ =~= create_action() + seq!['\n']);
        assert("\n"@ =~= seq!['\n']);
        assert(m.last() == Some(logs.last()));
        assert(b.last() == logs.last());
        assert(b.drop_last().last() == create_action());
        assert(joined(b.drop_last()) == joined(batch_lines(prev)) + create_action() + seq!['\n']);
        assert(joined(b) == joined(b.drop_last()) + logs.last() + seq!['\n']);
        assert(batch_text(m) == batch_text(m.drop_last()) + entry_text(m.last()));
        assert(batch_text(m) =~= joined(b));
    }
}

/// The state after the lines of a batch: every log accepted, in order.
pub open spec fn after_batch(s: BulkView, logs: Seq<Seq<char>>, fresh: Seq<u64>) -> bool {
    &&& s.awaiting == AwaitingView::Action
    &&& s.error is None
    &&& s.line_no == 2 * logs.len()
    &&& s.indexed == logs.len()
    &&& s.failed == 0
    &&& s.items.len() == logs.len()
    &&& s.documents.len() == logs.len()
    &&& forall|k: int|
        0 <= k < logs.len() ==> #[trigger] s.documents[k] == (BulkDocumentView {
            text: logs[k],
            index: default_index(),
            event: json_value(logs[k]),
        })
    &&& forall|k: int|
        0 <= k < logs.len() ==> #[trigger] s.items[k] == (BulkItemView {
            index: default_index(),
            id: decimal(fresh[2 * k + 1] as nat),
            created: true,
        })
}

/// What `serde_json` must make of the create action line for a batch to be
/// read back: valid JSON with a `create` member, and no `_index` or `_id` string.
pub open spec fn create_action_understood() -> bool {
    &&& json_accepts(create_action())
    &&& !(json_member_of(create_action(), "create"@) is Absent)
    &&& !(json_member_of(create_action(), "_index"@) is Text)
    &&& !(json_member_of(create_action(), "_id"@) is Text)
}

proof fn lemma_run_batch(logs: Seq<Seq<char>>, fresh: Seq<u64>)
    requires
        create_action_understood(),
        forall|k: int| 0 <= k < logs.len() ==> json_accepts(#[trigger] logs[k]),
        fresh.len() == 2 * logs.len(),
    ensures
        after_batch(bulk_run(batch_lines(logs), fresh), logs, fresh),
    decreases logs.len(),
{
    reveal_strlit("{\"create\":{}}");
    if logs.len() > 0 {
        let n = logs.len();
        let prev = logs.drop_last();
        let b = batch_lines(logs);
        let bp = batch_lines(prev);
        assert(json_accepts(logs[n - 1]));
        lemma_run_batch(prev, fresh.take(2 * (n - 1)));
        lemma_batch_len(prev);
        assert(b.drop_last() =~= bp.push(create_action()));
        assert(b.drop_last().drop_last() =~= bp);
        assert(fresh.take(2 * n - 1).take(2 * n - 2) =~= fresh.take(2 * (n - 1)));
        assert(!is_blank_text(create_action())) by {
            assert(!is_white_space(create_action()[0]));
        }
        let s0 = bulk_run(bp, fresh.take(2 * (n - 1)));
        let s1 = bulk_run(b.drop_last(), fresh.take(2 * n - 1));
        assert(s1 == bulk_next(s0, create_action(), fresh[2 * n - 2]));
        let s2 = bulk_run(b, fresh);
        assert(s2 == bulk_next(s1, logs.last(), fresh[2 * n - 1]));
        assert forall|k: int| 0 <= k < n implies #[trigger] s2.documents[k] == (BulkDocumentView {
            text: logs[k],
            index: default_index(),
            event: json_value(logs[k]),
        }) by {
            if k < n - 1 {
                assert(s2.documents[k] == s0.documents[k]);
                assert(prev[k] == logs[k]);
            }
        }
        assert forall|k: int| 0 <= k < n implies #[trigger] s2.items[k] == (BulkItemView {
            index: default_index(),
            id: decimal(fresh[2 * k + 1] as nat),
            created: true,
        }) by {
            if k < n - 1 {
                assert(s2.items[k] == s0.items[k]);
                assert(fresh.take(2 * (n - 1))[2 * k + 1] == fresh[2 * k + 1]);
            }
        }
    }
}

proof fn lemma_batch_len(logs: Seq<Seq<char>>)
    ensures
        batch_lines(logs).len() == 2 * logs.len(),
        forall|k: int|
            0 <= k < batch_lines(logs).len() ==> (#[trigger] batch_lines(logs)[k] == create_action()
                || exists|i: int| 0 <= i < logs.len() && batch_lines(logs)[k] == logs[i]),
    decreases logs.len(),
{
    if logs.len() > 0 {
        let prev = logs.drop_last();
        lemma_batch_len(prev);
        let b = batch_lines(logs);
        assert forall|k: int| 0 <= k < b.len() implies (#[trigger] b[k] == create_action()
            || exists|i: int| 0 <= i < logs.len() && b[k] == logs[i]) by {
            if k < b.len() - 2 {
                assert(b[k] == batch_lines(prev)[k]);
                if batch_lines(prev)[k] != create_action() {
                    let i = choose|i: int| 0 <= i < prev.len() && batch_lines(prev)[k] == prev[i];
                    assert(b[k] == logs[i]);
                }
            } else if k == b.len() - 1 {
                assert(b[k] == logs[logs.len() - 1]);
            }
        }
    }
}

/// A batch body that the output component sends, for logs that are JSON with
/// no line feed or carriage return in them, is read back by the input
/// component's bulk protocol as those logs, in order, all accepted, each with
/// the value `serde_json` parses from it, for the default index and with no
/// error: whatever random ids are drawn.
pub proof fn lemma_batch_read_back(logs: Seq<Seq<char>>, fresh: Seq<u64>)
    requires
        create_action_understood(),
        forall|k: int| 0 <= k < logs.len() ==> json_accepts(#[trigger] logs[k]),
        forall|k: int, i: int|
            0 <= k < logs.len() && 0 <= i < logs[k].len() ==> logs[k][i] != '\n' && logs[k][i]
                != '\r',
        fresh.len() == 2 * logs.len() + 1,
    ensures
        ({
            let body = batch_text(logs.map_values(|j: Seq<char>| Some(j))) + "\n"@;
            let s = bulk_run(body_lines(body), fresh);
            &&& body_lines(body).len() == fresh.len()
            &&& after_batch(s, logs, fresh)
        }),
{
    reveal_strlit("{\"create\":{}}");
    reveal_strlit("\n");
    let lines = batch_lines(logs).push(Seq::<char>::empty());
    lemma_batch_len(logs);
    assert forall|k: int| 0 <= k < lines.len() implies plain_line(#[trigger] lines[k]) by {
        if k < lines.len() - 1 {
            let b = batch_lines(logs);
            assert(lines[k] == b[k]);
            if b[k] != create_action() {
                let i = choose|i: int| 0 <= i < logs.len() && b[k] == logs[i];
                assert(forall|j: int| 0 <= j < logs[i].len() ==> logs[i][j] != '\n' && logs[i][j] != '\r');
            }
        }
    }
    lemma_joined_read_back(lines);
    lemma_batch_text_joined(logs);
    let body = batch_text(logs.map_values(|j: Seq<char>| Some(j))) + "\n"@;
    assert(lines.drop_last() =~= batch_lines(logs));
    assert(joined(lines) =~= body);
    lemma_run_batch(logs, fresh.take(2 * logs.len() as int));
    assert(lines.drop_last() =~= batch_lines(logs));
    let s0 = bulk_run(batch_lines(logs), fresh.take(2 * logs.len() as int));
    assert(is_blank_text(Seq::<char>::empty()));
    assert(bulk_run(lines, fresh) == bulk_next(s0, Seq::<char>::empty(), fresh[2 * logs.len() as int]));
    assert forall|k: int| 0 <= k < logs.len() implies #[trigger] fresh.take(2 * logs.len() as int)[2 * k + 1]
        == fresh[2 * k + 1] by {}
}

} // verus!
