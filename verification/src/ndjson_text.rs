//! The lines of a streamed NDJSON reply, read as text: for a stream that is
//! valid UTF-8, the lines the byte scan yields are those of the text the
//! stream encodes, split at each newline, trimmed, blank ones dropped.

use vstd::prelude::*;
use vstd::utf8::{
    char_is_scalar, char_u32_cast, decode_first_scalar, decode_utf8, decode_utf8_first_scalar,
    decode_utf8_split, encode_scalar, has_width_1_encoding, is_char_boundary_iff_not_is_continuation_byte,
    is_continuation_byte, is_leading_byte_width_1, leading_byte_width_1, length_of_first_scalar,
    pop_first_scalar, take_first_scalar, valid_first_scalar, valid_utf8, valid_utf8_concat,
};
use crate::ollama::{ndjson_step, scan_from, scan_ndjson, stream_text};
use crate::text::trim_ws;

verus! {

/// One character of a text scan: a newline completes the pending piece,
/// which becomes a line, trimmed, unless it is blank.
pub open spec fn text_step(lines: Seq<Seq<char>>, pending: Seq<char>, c: char) -> (
    Seq<Seq<char>>,
    Seq<char>,
) {
    let piece = pending.push(c);
    if c == '\n' {
        let line = trim_ws(piece);
        (if line.len() > 0 {
            lines.push(line)
        } else {
            lines
        }, Seq::empty())
    } else {
        (lines, piece)
    }
}

/// The lines of a text: each piece up to a newline, trimmed, when it is not
/// blank; and the text after the last newline, still pending.
pub open spec fn text_lines_scan(text: Seq<char>) -> (Seq<Seq<char>>, Seq<char>)
    decreases text.len(),
{
    if text.len() == 0 {
        (Seq::empty(), Seq::empty())
    } else {
        let (lines, pending) = text_lines_scan(text.drop_last());
        text_step(lines, pending, text.last())
    }
}

/// Scanning `more` from the state `lines`, `pending`.
pub open spec fn text_scan_from(lines: Seq<Seq<char>>, pending: Seq<char>, more: Seq<char>) -> (
    Seq<Seq<char>>,
    Seq<char>,
)
    decreases more.len(),
{
    if more.len() == 0 {
        (lines, pending)
    } else {
        let (l, p) = text_scan_from(lines, pending, more.drop_last());
        text_step(l, p, more.last())
    }
}

proof fn lemma_scan_from_concat(l: Seq<Seq<char>>, p: Seq<u8>, a: Seq<u8>, b: Seq<u8>)
    ensures
        scan_from(l, p, a + b) == scan_from(scan_from(l, p, a).0, scan_from(l, p, a).1, b),
    decreases b.len(),
{
    if b.len() == 0 {
        assert(a + b =~= a);
    } else {
        lemma_scan_from_concat(l, p, a, b.drop_last());
        assert((a + b).drop_last() =~= a + b.drop_last());
        assert((a + b).last() == b.last());
    }
}

proof fn lemma_text_scan_from_concat(l: Seq<Seq<char>>, p: Seq<char>, a: Seq<char>, b: Seq<char>)
    ensures
        text_scan_from(l, p, a + b) == text_scan_from(
            text_scan_from(l, p, a).0,
            text_scan_from(l, p, a).1,
            b,
        ),
    decreases b.len(),
{
    if b.len() == 0 {
        assert(a + b =~= a);
    } else {
        lemma_text_scan_from_concat(l, p, a, b.drop_last());
        assert((a + b).drop_last() =~= a + b.drop_last());
        assert((a + b).last() == b.last());
    }
}

proof fn lemma_scan_is_scan_from(b: Seq<u8>)
    ensures
        scan_ndjson(b) == scan_from(Seq::empty(), Seq::empty(), b),
    decreases b.len(),
{
    if b.len() > 0 {
        lemma_scan_is_scan_from(b.drop_last());
    }
}

proof fn lemma_text_is_scan_from(t: Seq<char>)
    ensures
        text_lines_scan(t) == text_scan_from(Seq::empty(), Seq::empty(), t),
    decreases t.len(),
{
    if t.len() > 0 {
        lemma_text_is_scan_from(t.drop_last());
    }
}

/// Bytes without a newline only extend the pending segment.
proof fn lemma_scan_from_plain(l: Seq<Seq<char>>, p: Seq<u8>, h: Seq<u8>)
    requires
        forall|i: int| 0 <= i < h.len() ==> h[i] != 10,
    ensures
        scan_from(l, p, h) == (l, p + h),
    decreases h.len(),
{
    if h.len() == 0 {
        assert(p + h =~= p);
    } else {
        lemma_scan_from_plain(l, p, h.drop_last());
        assert((p + h.drop_last()).push(h.last()) =~= p + h);
    }
}

/// Appending the first scalar of `r` to valid bytes `p` appends its character.
proof fn lemma_append_scalar(p: Seq<u8>, r: Seq<u8>)
    requires
        valid_utf8(p),
        valid_utf8(r),
        r.len() > 0,
    ensures
        valid_first_scalar(r),
        1 <= length_of_first_scalar(r) <= r.len(),
        valid_utf8(pop_first_scalar(r)),
        valid_utf8(take_first_scalar(r)),
        valid_utf8(p + take_first_scalar(r)),
        decode_utf8(p + take_first_scalar(r)) == decode_utf8(p).push(decode_first_scalar(r) as char),
        decode_utf8(r) == seq![decode_first_scalar(r) as char] + decode_utf8(pop_first_scalar(r)),
{
    let h = take_first_scalar(r);
    let k = length_of_first_scalar(r);
    assert(valid_first_scalar(r));
    assert(1 <= k <= r.len());
    assert(h.len() == k);
    assert forall|i: int| 0 <= i < k implies h[i] == r[i] by {}
    assert(valid_first_scalar(h));
    assert(length_of_first_scalar(h) == k);
    assert(decode_first_scalar(h) == decode_first_scalar(r));
    assert(pop_first_scalar(h) =~= Seq::<u8>::empty());
    assert(valid_utf8(Seq::<u8>::empty()));
    assert(valid_utf8(h));
    assert(decode_utf8(Seq::<u8>::empty()) =~= Seq::<char>::empty());
    assert(decode_utf8(h) =~= seq![decode_first_scalar(r) as char]);
    valid_utf8_concat(p, h);
    let ph = p + h;
    if p.len() > 0 {
        assert(ph[p.len() as int] == r[0]);
        assert(!is_continuation_byte(r[0]));
        is_char_boundary_iff_not_is_continuation_byte(ph, p.len() as int);
        decode_utf8_split(ph, p.len() as int);
        assert(ph.subrange(0, p.len() as int) =~= p);
        assert(ph.subrange(p.len() as int, ph.len() as int) =~= h);
    } else {
        assert(ph =~= h);
        assert(decode_utf8(p) =~= Seq::<char>::empty());
    }
    assert(decode_utf8(ph) =~= decode_utf8(p).push(decode_first_scalar(r) as char));
}

/// The first scalar of valid bytes is a newline exactly when its encoding
/// is the single byte 10.
proof fn lemma_first_scalar_newline(r: Seq<u8>)
    requires
        valid_utf8(r),
        r.len() > 0,
    ensures
        (decode_first_scalar(r) as char == '\n') <==> (take_first_scalar(r) =~= seq![10u8]),
{
    decode_utf8_first_scalar(r);
    let c = decode_first_scalar(r) as char;
    let v = c as u32;
    char_is_scalar(c);
    if c == '\n' {
        assert(v == 10);
        assert((10u32 & 0x7f) as u8 == 10u8) by (bit_vector);
        assert(encode_scalar(v) =~= seq![10u8]);
    }
    if take_first_scalar(r) =~= seq![10u8] {
        if has_width_1_encoding(v) {
            let e = encode_scalar(v);
            assert(e == take_first_scalar(r));
            assert(take_first_scalar(r)[0] == 10u8);
            assert(e[0] == leading_byte_width_1(v));
            assert(leading_byte_width_1(v) == 10u8);
            assert(v <= 0x7f && (v & 0x7f) as u8 == 10u8 ==> v == 10) by (bit_vector);
            char_u32_cast(c, v);
            char_u32_cast('\n', 10u32);
        } else {
            assert(encode_scalar(v).len() >= 2);
        }
    }
}

/// The scan of the first scalar's bytes matches one step of the text scan.
proof fn lemma_first_scalar_step(l: Seq<Seq<char>>, p: Seq<u8>, r: Seq<u8>)
    requires
        valid_utf8(p),
        valid_utf8(r),
        r.len() > 0,
    ensures
        scan_from(l, p, take_first_scalar(r)).0 == text_step(
            l,
            decode_utf8(p),
            decode_first_scalar(r) as char,
        ).0,
        valid_utf8(scan_from(l, p, take_first_scalar(r)).1),
        decode_utf8(scan_from(l, p, take_first_scalar(r)).1) == text_step(
            l,
            decode_utf8(p),
            decode_first_scalar(r) as char,
        ).1,
{
    lemma_append_scalar(p, r);
    lemma_first_scalar_newline(r);
    let h = take_first_scalar(r);
    let c = decode_first_scalar(r) as char;
    if c == '\n' {
        reveal_with_fuel(scan_from, 2);
        assert(h.drop_last() =~= Seq::<u8>::empty());
        assert(scan_from(l, p, h) == ndjson_step(l, p, 10u8));
        assert(p.push(10u8) =~= p + h);
        assert(stream_text(p.push(10u8)) == decode_utf8(p).push(c));
        assert(decode_utf8(Seq::<u8>::empty()) =~= Seq::<char>::empty());
        assert(valid_utf8(Seq::<u8>::empty()));
    } else {
        if h.len() == 1 {
            assert(h[0] != 10);
        }
        if is_leading_byte_width_1(r[0]) {
            assert(h.len() == 1);
        }
        assert forall|i: int| 0 <= i < h.len() implies h[i] != 10 by {
            assert(h[i] == r[i]);
            if i > 0 {
                assert(is_continuation_byte(r[i]));
            } else if h.len() > 1 {
                assert(!is_leading_byte_width_1(r[0]));
            }
        }
        lemma_scan_from_plain(l, p, h);
    }
}

/// Scanning valid bytes `r` from a valid pending segment matches scanning
/// the text they encode.
proof fn lemma_scan_decoded(l: Seq<Seq<char>>, p: Seq<u8>, r: Seq<u8>)
    requires
        valid_utf8(p),
        valid_utf8(r),
    ensures
        scan_from(l, p, r).0 == text_scan_from(l, decode_utf8(p), decode_utf8(r)).0,
        valid_utf8(scan_from(l, p, r).1),
        decode_utf8(scan_from(l, p, r).1) == text_scan_from(l, decode_utf8(p), decode_utf8(r)).1,
    decreases r.len(),
{
    if r.len() == 0 {
        assert(decode_utf8(r) =~= Seq::<char>::empty());
    } else {
        lemma_append_scalar(p, r);
        let h = take_first_scalar(r);
        let t = pop_first_scalar(r);
        let c = decode_first_scalar(r) as char;
        assert(r =~= h + t);
        lemma_scan_from_concat(l, p, h, t);
        lemma_text_scan_from_concat(l, decode_utf8(p), seq![c], decode_utf8(t));
        assert(seq![c].drop_last() =~= Seq::<char>::empty());
        assert(text_scan_from(l, decode_utf8(p), seq![c]) == text_step(l, decode_utf8(p), c)) by {
            reveal_with_fuel(text_scan_from, 2);
        }
        lemma_first_scalar_step(l, p, r);
        let s = scan_from(l, p, h);
        lemma_scan_decoded(s.0, s.1, t);
    }
}

/// For a stream that is valid UTF-8, the lines the NDJSON scan yields are
/// the lines of the text it encodes (split at each newline, trimmed, blank
/// ones dropped), and the bytes it holds encode the text after the last
/// newline. With `law_ndjson_chunks_compose`, this holds however the stream
/// is cut into chunks.
pub proof fn law_ndjson_lines_are_text_lines(bytes: Seq<u8>)
    requires
        valid_utf8(bytes),
    ensures
        scan_ndjson(bytes).0 == text_lines_scan(decode_utf8(bytes)).0,
        stream_text(scan_ndjson(bytes).1) == text_lines_scan(decode_utf8(bytes)).1,
{
    lemma_scan_is_scan_from(bytes);
    lemma_text_is_scan_from(decode_utf8(bytes));
    assert(valid_utf8(Seq::<u8>::empty()));
    assert(decode_utf8(Seq::<u8>::empty()) =~= Seq::<char>::empty());
    lemma_scan_decoded(Seq::empty(), Seq::empty(), bytes);
}

/// The line that text after the last newline makes, when it is not blank.
pub open spec fn last_line(pending: Seq<char>) -> Seq<Seq<char>> {
    let line = trim_ws(pending);
    if line.len() > 0 {
        seq![line]
    } else {
        Seq::empty()
    }
}

/// All lines of a text: split at each newline, each piece trimmed, blank
/// pieces dropped.
pub open spec fn text_lines(text: Seq<char>) -> Seq<Seq<char>> {
    text_lines_scan(text).0 + last_line(text_lines_scan(text).1)
}

/// For a stream that is valid UTF-8, the lines that `NdjsonBuffer::push`
/// returns over all chunks, followed by the line `finish` returns (the
/// last line, when the text after the last newline is not blank), are all
/// lines of the text the stream encodes.
pub proof fn law_ndjson_stream_lines(bytes: Seq<u8>)
    requires
        valid_utf8(bytes),
    ensures
        scan_ndjson(bytes).0 + last_line(stream_text(scan_ndjson(bytes).1)) == text_lines(
            decode_utf8(bytes),
        ),
{
    law_ndjson_lines_are_text_lines(bytes);
}

} // verus!
