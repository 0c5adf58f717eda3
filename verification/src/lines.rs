//! Splitting a request body into lines, as `str::lines` does: lines end at
//! `\n` or `\r\n`, and a final line ending is optional.
use vstd::prelude::*;
use vstd::string::StringSliceAdditionalSpecFns;
use vstd::utf8::is_char_boundary;

verus! {

broadcast use vstd::utf8::group_utf8_lib;

/// The byte of a line feed.
pub open spec fn newline_byte() -> u8 {
    10u8
}

/// The byte of a carriage return.
pub open spec fn return_byte() -> u8 {
    13u8
}

/// The pieces of `s` between line feeds, in order: one more than the number
/// of line feeds in `s`.
pub open spec fn newline_pieces(s: Seq<u8>) -> Seq<Seq<u8>>
    decreases s.len(),
{
    if s.len() == 0 {
        seq![Seq::<u8>::empty()]
    } else {
        let p = newline_pieces(s.drop_last());
        if s.last() == newline_byte() {
            p.push(Seq::<u8>::empty())
        } else {
            p.update(p.len() - 1, p.last().push(s.last()))
        }
    }
}

/// A line that was ended by a line feed, without a carriage return before it.
pub open spec fn without_return(line: Seq<u8>) -> Seq<u8> {
    if line.len() > 0 && line.last() == return_byte() {
        line.drop_last()
    } else {
        line
    }
}

/// The lines of the text whose UTF-8 encoding is `s`, each as its bytes.
pub open spec fn text_lines(s: Seq<u8>) -> Seq<Seq<u8>> {
    let p = newline_pieces(s);
    let ended = p.drop_last().map_values(|l: Seq<u8>| without_return(l));
    if p.last().len() == 0 {
        ended
    } else {
        ended.push(p.last())
    }
}

/// `newline_pieces` never gives an empty sequence, and a piece holds no line feed.
pub proof fn lemma_newline_pieces(s: Seq<u8>)
    ensures
        newline_pieces(s).len() >= 1,
        newline_pieces(s).len() == 1 ==> newline_pieces(s)[0] == s,
        forall|k: int, j: int|
            0 <= k < newline_pieces(s).len() && 0 <= j < newline_pieces(s)[k].len()
                ==> newline_pieces(s)[k][j] != newline_byte(),
    decreases s.len(),
{
    if s.len() > 0 {
        lemma_newline_pieces(s.drop_last());
        let p = newline_pieces(s.drop_last());
        if s.last() != newline_byte() {
            assert(p.len() == 1 ==> p.last().push(s.last()) =~= s);
            let q = newline_pieces(s);
            assert forall|k: int, j: int| 0 <= k < q.len() && 0 <= j < q[k].len() implies q[k][j]
                != newline_byte() by {
                if k == p.len() - 1 {
                    if j < p.last().len() {
                        assert(q[k][j] == p[k][j]);
                    }
                } else {
                    assert(q[k] == p[k]);
                }
            }
        } else {
            let q = newline_pieces(s);
            assert forall|k: int, j: int| 0 <= k < q.len() && 0 <= j < q[k].len() implies q[k][j]
                != newline_byte() by {
                assert(q[k] == p[k]);
            }
        }
    } else {
        assert(newline_pieces(s)[0] =~= s);
    }
}

/// Splits `body` into its lines, as `body.lines()` does.
pub fn split_lines(body: &str) -> (lines: Vec<&str>)
    ensures
        lines@.len() == text_lines(body.spec_bytes()).len(),
        forall|k: int|
            0 <= k < lines@.len() ==> #[trigger] lines@[k].spec_bytes() == text_lines(
                body.spec_bytes(),
            )[k],
{
    let bytes = body.as_bytes();
    let n: usize = bytes.len();
    let ghost all = bytes@;
    let mut lines: Vec<&str> = Vec::new();
    let mut rest: &str = body;
    let mut start: usize = 0;
    let mut i: usize = 0;
    let ghost mut done: Seq<Seq<u8>> = Seq::empty();
    assert(all.take(0) =~= Seq::<u8>::empty());
    assert(all.subrange(0, n as int) =~= all);
    while i < n
        invariant
            n == all.len(),
            all == body.spec_bytes(),
            bytes@ == all,
            start <= i <= n,
            rest.spec_bytes() == all.subrange(start as int, n as int),
            newline_pieces(all.take(i as int)) == done.push(all.subrange(start as int, i as int)),
            lines@.len() == done.len(),
            forall|k: int|
                0 <= k < lines@.len() ==> #[trigger] lines@[k].spec_bytes() == without_return(
                    done[k],
                ),
        decreases n - i,
    {
        proof {
            assert(all.take(i + 1).drop_last() =~= all.take(i as int));
            assert(all.take(i + 1).last() == all[i as int]);
        }
        if bytes[i] == 10u8 {
            let ghost rb = rest.spec_bytes();
            let at: usize = i - start;
            proof {
                assert(rb[at as int] == all[i as int]);
                vstd::utf8::is_char_boundary_iff_not_is_continuation_byte(rb, at as int);
            }
            let (piece, tail) = rest.split_at(at);
            let ghost tb = tail.spec_bytes();
            proof {
                assert(tb[0] == all[i as int]);
                reveal_with_fuel(is_char_boundary, 2);
            }
            let (_newline, after) = tail.split_at(1);
            let pb = piece.as_bytes();
            let plen: usize = pb.len();
            let line: &str = if plen > 0 && pb[plen - 1] == 13u8 {
                proof {
                    vstd::utf8::is_char_boundary_iff_not_is_continuation_byte(pb@, plen - 1);
                }
                let (kept, _ret) = piece.split_at(plen - 1);
                proof {
                    assert(kept.spec_bytes() =~= pb@.drop_last());
                }
                kept
            } else {
                piece
            };
            proof {
                assert(pb@ =~= all.subrange(start as int, i as int));
                assert(after.spec_bytes() =~= all.subrange(i + 1, n as int));
                assert(all.subrange(i + 1, i + 1) =~= Seq::<u8>::empty());
                done = done.push(all.subrange(start as int, i as int));
            }
            lines.push(line);
            rest = after;
            start = i + 1;
        } else {
            proof {
                assert(all.subrange(start as int, i + 1) =~= all.subrange(start as int, i as int).push(
                    all[i as int],
                ));
            }
        }
        i = i + 1;
    }
    proof {
        assert(all.take(n as int) =~= all);
        let p = newline_pieces(all);
        assert(p.drop_last() =~= done);
    }
    if start < n {
        lines.push(rest);
    }
    proof {
        let p = newline_pieces(all);
        let t = text_lines(all);
        assert(p.last() == all.subrange(start as int, n as int));
        assert(lines@.len() == t.len());
    }
    lines
}

/// No line holds a line feed.
pub proof fn lemma_lines_hold_no_newline(s: Seq<u8>)
    ensures
        forall|k: int, j: int|
            0 <= k < text_lines(s).len() && 0 <= j < text_lines(s)[k].len()
                ==> text_lines(s)[k][j] != newline_byte(),
{
    lemma_newline_pieces(s);
    let p = newline_pieces(s);
    let t = text_lines(s);
    assert forall|k: int, j: int| 0 <= k < t.len() && 0 <= j < t[k].len() implies t[k][j]
        != newline_byte() by {
        if k < p.len() - 1 {
            assert(t[k] == without_return(p[k]));
            assert(t[k][j] == p[k][j]);
        } else {
            assert(t[k] == p[k]);
        }
    }
}

} // verus!
