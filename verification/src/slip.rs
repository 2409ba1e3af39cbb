//! SLIP framing (RFC 1055 flavour used by the ESP32 ROM bootloader).
use vstd::prelude::*;

verus! {

pub const SLIP_END: u8 = 0xC0;
pub const SLIP_ESC: u8 = 0xDB;
pub const SLIP_ESC_END: u8 = 0xDC;
pub const SLIP_ESC_ESC: u8 = 0xDD;

/// The bytes that stand for one payload byte inside a frame.
pub open spec fn escape_byte(b: u8) -> Seq<u8> {
    if b == SLIP_END {
        seq![SLIP_ESC, SLIP_ESC_END]
    } else if b == SLIP_ESC {
        seq![SLIP_ESC, SLIP_ESC_ESC]
    } else {
        seq![b]
    }
}

/// The escaped body of a frame carrying `data`.
pub open spec fn slip_escape(data: Seq<u8>) -> Seq<u8>
    decreases data.len(),
{
    if data.len() == 0 {
        Seq::empty()
    } else {
        slip_escape(data.drop_last()) + escape_byte(data.last())
    }
}

/// A whole frame: `END`, the escaped body, `END`.
pub open spec fn spec_slip_encode(data: Seq<u8>) -> Seq<u8> {
    seq![SLIP_END] + slip_escape(data) + seq![SLIP_END]
}

/// One step of the decoder: the data decoded so far and whether an escape is pending.
pub open spec fn decode_step(st: (Seq<u8>, bool), b: u8) -> (Seq<u8>, bool) {
    if st.1 {
        let out = if b == SLIP_ESC_END {
            SLIP_END
        } else if b == SLIP_ESC_ESC {
            SLIP_ESC
        } else {
            b
        };
        (st.0.push(out), false)
    } else if b == SLIP_ESC {
        (st.0, true)
    } else if b != SLIP_END {
        (st.0.push(b), false)
    } else {
        (st.0, false)
    }
}

/// The decoder's state after reading `frame` from the start.
pub open spec fn decode_state(frame: Seq<u8>) -> (Seq<u8>, bool)
    decreases frame.len(),
{
    if frame.len() == 0 {
        (Seq::empty(), false)
    } else {
        decode_step(decode_state(frame.drop_last()), frame.last())
    }
}

/// What `slip_decode` gives back for `frame`.
pub open spec fn spec_slip_decode(frame: Seq<u8>) -> Seq<u8> {
    decode_state(frame).0
}

/// One step of the frame splitter: frames found, inside a frame, bytes of the open frame.
pub open spec fn extract_step(st: (Seq<Seq<u8>>, bool, Seq<u8>), b: u8) -> (
    Seq<Seq<u8>>,
    bool,
    Seq<u8>,
) {
    if b == SLIP_END {
        if st.1 && st.2.len() > 0 {
            (st.0.push(st.2), false, Seq::empty())
        } else {
            (st.0, true, Seq::empty())
        }
    } else if st.1 {
        (st.0, st.1, st.2.push(b))
    } else {
        st
    }
}

/// The frame splitter's state after reading `raw` from the start.
pub open spec fn extract_state(raw: Seq<u8>) -> (Seq<Seq<u8>>, bool, Seq<u8>)
    decreases raw.len(),
{
    if raw.len() == 0 {
        (Seq::empty(), false, Seq::empty())
    } else {
        extract_step(extract_state(raw.drop_last()), raw.last())
    }
}

/// The complete frames (bodies between `END` bytes, never empty) found in `raw`.
pub open spec fn spec_extract_slip_frames(raw: Seq<u8>) -> Seq<Seq<u8>> {
    extract_state(raw).0
}

/// The byte contents of a list of frames.
pub open spec fn frames_view(frames: Seq<Vec<u8>>) -> Seq<Seq<u8>> {
    frames.map_values(|f: Vec<u8>| f@)
}

/// Wrap `data` into one SLIP frame.
pub fn slip_encode(data: &[u8]) -> (frame: Vec<u8>)
    requires
        2 * data@.len() + 2 <= usize::MAX,
    ensures
        frame@ == spec_slip_encode(data@),
{
    let mut frame: Vec<u8> = Vec::new();
    frame.push(SLIP_END);
    let n = data.len();
    let mut i: usize = 0;
    proof {
        lemma_escape_len(data@.take(0));
    }
    while i < n
        invariant
            n == data@.len(),
            2 * n + 2 <= usize::MAX,
            i <= n,
            frame@ == seq![SLIP_END] + slip_escape(data@.take(i as int)),
            frame@.len() <= 2 * i + 1,
        decreases n - i,
    {
        let byte = data[i];
        proof {
            assert(data@.take(i + 1).drop_last() =~= data@.take(i as int));
            assert(data@.take(i + 1).last() == byte);
        }
        if byte == SLIP_END {
            frame.push(SLIP_ESC);
            frame.push(SLIP_ESC_END);
        } else if byte == SLIP_ESC {
            frame.push(SLIP_ESC);
            frame.push(SLIP_ESC_ESC);
        } else {
            frame.push(byte);
        }
        i = i + 1;
    }
    frame.push(SLIP_END);
    proof {
        assert(data@.take(n as int) =~= data@);
    }
    frame
}

/// Recover the payload of one frame body (or of a whole frame: `END` bytes are skipped).
pub fn slip_decode(frame: &[u8]) -> (data: Vec<u8>)
    ensures
        data@ == spec_slip_decode(frame@),
{
    let mut data: Vec<u8> = Vec::new();
    let mut escaped = false;
    let n = frame.len();
    let mut i: usize = 0;
    while i < n
        invariant
            n == frame@.len(),
            i <= n,
            (data@, escaped) == decode_state(frame@.take(i as int)),
            data@.len() <= i,
        decreases n - i,
    {
        let byte = frame[i];
        proof {
            assert(frame@.take(i + 1).drop_last() =~= frame@.take(i as int));
            assert(frame@.take(i + 1).last() == byte);
        }
        if escaped {
            if byte == SLIP_ESC_END {
                data.push(SLIP_END);
            } else if byte == SLIP_ESC_ESC {
                data.push(SLIP_ESC);
            } else {
                data.push(byte);
            }
            escaped = false;
        } else if byte == SLIP_ESC {
            escaped = true;
        } else if byte != SLIP_END {
            data.push(byte);
        }
        i = i + 1;
    }
    proof {
        assert(frame@.take(n as int) =~= frame@);
    }
    data
}

/// Split a raw byte stream into the complete SLIP frames it holds; bytes outside a
/// frame are dropped, and an unfinished frame at the end is not returned.
pub fn extract_slip_frames(raw: &[u8]) -> (frames: Vec<Vec<u8>>)
    ensures
        frames_view(frames@) == spec_extract_slip_frames(raw@),
{
    let mut frames: Vec<Vec<u8>> = Vec::new();
    let mut in_frame = false;
    let mut current: Vec<u8> = Vec::new();
    let n = raw.len();
    let mut i: usize = 0;
    while i < n
        invariant
            n == raw@.len(),
            i <= n,
            (frames_view(frames@), in_frame, current@) == extract_state(raw@.take(i as int)),
        decreases n - i,
    {
        let byte = raw[i];
        proof {
            assert(raw@.take(i + 1).drop_last() =~= raw@.take(i as int));
            assert(raw@.take(i + 1).last() == byte);
        }
        if byte == SLIP_END {
            if in_frame && current.len() > 0 {
                let mut done: Vec<u8> = Vec::new();
                std::mem::swap(&mut done, &mut current);
                let ghost before = frames@;
                let ghost done_view = done@;
                frames.push(done);
                proof {
                    assert(frames_view(frames@) =~= frames_view(before).push(done_view));
                }
                in_frame = false;
            } else {
                in_frame = true;
                current = Vec::new();
            }
        } else if in_frame {
            current.push(byte);
        }
        i = i + 1;
    }
    proof {
        assert(raw@.take(n as int) =~= raw@);
    }
    frames
}

/// The escaped body is at most twice as long as the data and never shorter.
pub proof fn lemma_escape_len(data: Seq<u8>)
    ensures
        data.len() <= slip_escape(data).len() <= 2 * data.len(),
    decreases data.len(),
{
    if data.len() > 0 {
        lemma_escape_len(data.drop_last());
    }
}

/// An escaped body never holds the frame delimiter.
pub proof fn lemma_escape_has_no_end(data: Seq<u8>)
    ensures
        forall|i: int| 0 <= i < slip_escape(data).len() ==> slip_escape(data)[i] != SLIP_END,
    decreases data.len(),
{
    if data.len() > 0 {
        let a = slip_escape(data.drop_last());
        let e = escape_byte(data.last());
        lemma_escape_has_no_end(data.drop_last());
        assert forall|i: int| 0 <= i < slip_escape(data).len() implies slip_escape(data)[i]
            != SLIP_END by {
            assert(slip_escape(data) == a + e);
            if i >= a.len() {
                assert(slip_escape(data)[i] == e[i - a.len()]);
            }
        }
    }
}

proof fn lemma_decode_escaped(data: Seq<u8>)
    ensures
        decode_state(seq![SLIP_END] + slip_escape(data)) == (data, false),
    decreases data.len(),
{
    if data.len() == 0 {
        let f = seq![SLIP_END];
        assert(f.drop_last() =~= Seq::<u8>::empty());
        assert(seq![SLIP_END] + slip_escape(data) =~= f);
        assert(decode_state(Seq::<u8>::empty()) == (Seq::<u8>::empty(), false));
        assert(data =~= Seq::<u8>::empty());
    } else {
        let dl = data.drop_last();
        let b = data.last();
        lemma_decode_escaped(dl);
        let p = seq![SLIP_END] + slip_escape(dl);
        assert(seq![SLIP_END] + slip_escape(data) =~= p + escape_byte(b));
        assert(dl.push(b) =~= data);
        if b == SLIP_END || b == SLIP_ESC {
            let x = escape_byte(b)[1];
            let q = p.push(SLIP_ESC);
            assert((p + escape_byte(b)).drop_last() =~= q);
            assert(q.drop_last() =~= p);
            assert(decode_state(q) == decode_step(decode_state(p), SLIP_ESC));
            assert(decode_state(q) == (dl, true));
            assert((p + escape_byte(b)).last() == x);
            assert(decode_state(p + escape_byte(b)) == decode_step(decode_state(q), x));
        } else {
            assert((p + escape_byte(b)).drop_last() =~= p);
            assert(decode_state(p + escape_byte(b)) == decode_step(decode_state(p), b));
        }
    }
}

/// Decoding a frame built by `slip_encode` gives back the data it carries.
pub proof fn lemma_slip_roundtrip(data: Seq<u8>)
    ensures
        spec_slip_decode(spec_slip_encode(data)) == data,
{
    lemma_decode_escaped(data);
    let f = spec_slip_encode(data);
    assert(f.drop_last() =~= seq![SLIP_END] + slip_escape(data));
}

proof fn lemma_extract_open_frame(s: Seq<u8>)
    requires
        forall|i: int| 0 <= i < s.len() ==> s[i] != SLIP_END,
    ensures
        extract_state(seq![SLIP_END] + s) == (Seq::<Seq<u8>>::empty(), true, s),
    decreases s.len(),
{
    if s.len() == 0 {
        let f = seq![SLIP_END];
        assert(f.drop_last() =~= Seq::<u8>::empty());
        assert(seq![SLIP_END] + s =~= f);
        assert(extract_state(Seq::<u8>::empty()) == (
            Seq::<Seq<u8>>::empty(),
            false,
            Seq::<u8>::empty(),
        ));
        assert(s =~= Seq::<u8>::empty());
    } else {
        lemma_extract_open_frame(s.drop_last());
        assert((seq![SLIP_END] + s).drop_last() =~= seq![SLIP_END] + s.drop_last());
        assert(s.drop_last().push(s.last()) =~= s);
    }
}

/// Splitting the frame that `slip_encode` builds for non-empty data yields exactly one
/// frame, whose body is the escaped data.
pub proof fn lemma_extract_single_frame(data: Seq<u8>)
    requires
        data.len() > 0,
    ensures
        spec_extract_slip_frames(spec_slip_encode(data)) == seq![slip_escape(data)],
{
    lemma_escape_has_no_end(data);
    lemma_escape_len(data);
    lemma_extract_open_frame(slip_escape(data));
    let f = spec_slip_encode(data);
    assert(f.drop_last() =~= seq![SLIP_END] + slip_escape(data));
    assert(Seq::<Seq<u8>>::empty().push(slip_escape(data)) =~= seq![slip_escape(data)]);
}

proof fn lemma_decode_skips_leading_end(s: Seq<u8>)
    ensures
        decode_state(seq![SLIP_END] + s) == decode_state(s),
    decreases s.len(),
{
    if s.len() == 0 {
        let f = seq![SLIP_END];
        assert(f.drop_last() =~= Seq::<u8>::empty());
        assert(seq![SLIP_END] + s =~= f);
        assert(decode_state(Seq::<u8>::empty()) == (Seq::<u8>::empty(), false));
        assert(s =~= Seq::<u8>::empty());
    } else {
        lemma_decode_skips_leading_end(s.drop_last());
        assert((seq![SLIP_END] + s).drop_last() =~= seq![SLIP_END] + s.drop_last());
    }
}

/// Decoding the escaped body of a frame (without its delimiters) gives back the data.
pub proof fn lemma_decode_body(data: Seq<u8>)
    ensures
        spec_slip_decode(slip_escape(data)) == data,
{
    lemma_decode_escaped(data);
    lemma_decode_skips_leading_end(slip_escape(data));
}

/// Where the frames of `raw` start: the position of the opening `END` of each complete
/// frame, and that of the frame still open.
pub open spec fn frame_starts(raw: Seq<u8>) -> (Seq<int>, int)
    decreases raw.len(),
{
    if raw.len() == 0 {
        (Seq::empty(), 0)
    } else {
        let prev = frame_starts(raw.drop_last());
        let st = extract_state(raw.drop_last());
        if raw.last() == SLIP_END {
            if st.1 && st.2.len() > 0 {
                (prev.0.push(prev.1), prev.1)
            } else {
                (prev.0, raw.len() - 1)
            }
        } else {
            prev
        }
    }
}

/// Whether `f` stands in `raw` at `p` between two `END` bytes.
pub open spec fn framed_at(raw: Seq<u8>, f: Seq<u8>, p: int) -> bool {
    0 <= p && p + f.len() + 2 <= raw.len() && raw.subrange(p, p + f.len() + 2) == seq![SLIP_END]
        + f + seq![SLIP_END]
}

/// Whether `s` holds no `END` byte.
pub open spec fn no_end(s: Seq<u8>) -> bool {
    forall|j: int| 0 <= j < s.len() ==> s[j] != SLIP_END
}

/// What the frame splitter keeps true at every byte.
spec fn extract_inv(raw: Seq<u8>) -> bool {
    let st = extract_state(raw);
    let fs = frame_starts(raw);
    let fr = st.0;
    let ps = fs.0;
    &&& ps.len() == fr.len()
    &&& forall|k: int|
        0 <= k < fr.len() ==> #[trigger] fr[k].len() > 0 && no_end(fr[k]) && framed_at(
            raw,
            fr[k],
            ps[k],
        )
    &&& forall|k: int|
        0 <= k && k + 1 < fr.len() ==> ps[k] + fr[k].len() + 2 <= #[trigger] ps[k + 1]
    &&& !st.1 ==> st.2.len() == 0
    &&& no_end(st.2)
    &&& st.1 ==> {
        &&& 0 <= fs.1 < raw.len()
        &&& raw[fs.1] == SLIP_END
        &&& raw.subrange(fs.1 + 1, raw.len() as int) == st.2
        &&& fr.len() > 0 ==> ps[fr.len() - 1] + fr[fr.len() - 1].len() + 2 <= fs.1
    }
}

proof fn lemma_extract_inv(raw: Seq<u8>)
    ensures
        extract_inv(raw),
    decreases raw.len(),
{
    if raw.len() > 0 {
        let r = raw.drop_last();
        lemma_extract_inv(r);
        let b = raw.last();
        let i = r.len() as int;
        let st0 = extract_state(r);
        let fs0 = frame_starts(r);
        let fr0 = st0.0;
        let ps0 = fs0.0;
        assert(raw == r.push(b));
        assert forall|x: int, y: int| 0 <= x <= y <= i implies raw.subrange(x, y) == r.subrange(
            x,
            y,
        ) by {
            assert(raw.subrange(x, y) =~= r.subrange(x, y));
        }
        let st = extract_state(raw);
        let fs = frame_starts(raw);
        if b == SLIP_END && st0.1 && st0.2.len() > 0 {
            let o = fs0.1;
            let f = st0.2;
            assert(st.0 == fr0.push(f));
            assert(fs.0 == ps0.push(o));
            assert(o + f.len() + 2 == raw.len());
            assert(raw.subrange(o, o + f.len() + 2) =~= seq![SLIP_END] + f + seq![SLIP_END]) by {
                assert(raw.subrange(o + 1, i) == r.subrange(o + 1, i));
                assert(r.subrange(o + 1, i) == f);
            }
            assert forall|k: int| 0 <= k < st.0.len() implies #[trigger] st.0[k].len() > 0
                && no_end(st.0[k]) && framed_at(raw, st.0[k], fs.0[k]) by {
                if k < fr0.len() {
                    assert(st.0[k] == fr0[k]);
                    assert(fs.0[k] == ps0[k]);
                    assert(framed_at(r, fr0[k], ps0[k]));
                    assert(raw.subrange(ps0[k], ps0[k] + fr0[k].len() + 2) == r.subrange(
                        ps0[k],
                        ps0[k] + fr0[k].len() + 2,
                    ));
                }
            }
            assert forall|k: int| 0 <= k && k + 1 < st.0.len() implies fs.0[k] + st.0[k].len()
                + 2 <= #[trigger] fs.0[k + 1] by {
                if k + 1 < fr0.len() {
                    assert(fs.0[k + 1] == ps0[k + 1]);
                }
            }
        } else if b == SLIP_END {
            assert(st.0 == fr0);
            assert(fs.0 == ps0);
            assert(fs.1 == i);
            assert(raw.subrange(i + 1, raw.len() as int) =~= st.2);
            assert forall|k: int| 0 <= k < st.0.len() implies #[trigger] st.0[k].len() > 0
                && no_end(st.0[k]) && framed_at(raw, st.0[k], fs.0[k]) by {
                assert(fr0[k].len() > 0);
                assert(framed_at(r, fr0[k], ps0[k]));
                assert(raw.subrange(ps0[k], ps0[k] + fr0[k].len() + 2) == r.subrange(
                    ps0[k],
                    ps0[k] + fr0[k].len() + 2,
                ));
            }
            if fr0.len() > 0 {
                assert(framed_at(r, fr0[fr0.len() - 1], ps0[fr0.len() - 1]));
            }
        } else {
            assert(st.0 == fr0);
            assert(fs == fs0);
            assert forall|k: int| 0 <= k < st.0.len() implies #[trigger] st.0[k].len() > 0
                && no_end(st.0[k]) && framed_at(raw, st.0[k], fs.0[k]) by {
                assert(fr0[k].len() > 0);
                assert(framed_at(r, fr0[k], ps0[k]));
                assert(raw.subrange(ps0[k], ps0[k] + fr0[k].len() + 2) == r.subrange(
                    ps0[k],
                    ps0[k] + fr0[k].len() + 2,
                ));
            }
            if st0.1 {
                let o = fs0.1;
                assert(st.2 == st0.2.push(b));
                assert(raw.subrange(o + 1, raw.len() as int) =~= r.subrange(o + 1, i).push(b));
                assert(raw[o] == r[o]);
                assert(no_end(st.2)) by {
                    assert forall|j: int| 0 <= j < st.2.len() implies st.2[j] != SLIP_END by {
                        if j < st0.2.len() {
                            assert(st.2[j] == st0.2[j]);
                        }
                    }
                }
            } else {
                assert(st == st0);
            }
        }
    }
}

/// Every frame that the splitter returns is non-empty, holds no `END` byte and stands
/// in the input between two `END` bytes; the frames come in the order in which they
/// stand in the input and do not overlap.
pub proof fn lemma_frames_in_raw(raw: Seq<u8>)
    ensures
        ({
            let fr = spec_extract_slip_frames(raw);
            let ps = frame_starts(raw).0;
            &&& ps.len() == fr.len()
            &&& forall|k: int|
                0 <= k < fr.len() ==> #[trigger] fr[k].len() > 0 && no_end(fr[k]) && framed_at(
                    raw,
                    fr[k],
                    ps[k],
                )
            &&& forall|k: int|
                0 <= k && k + 1 < fr.len() ==> ps[k] + fr[k].len() + 2 <= #[trigger] ps[k + 1]
        }),
{
    lemma_extract_inv(raw);
}

} // verus!
