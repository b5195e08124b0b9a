//! SLIP framing (RFC 1055): delimiter 0xC0, escape 0xDB, escaped forms
//! 0xDC (for 0xC0) and 0xDD (for 0xDB).
//!
//! The encoder emits a leading and a trailing delimiter.  The decoder skips
//! stray delimiters before a frame, unstuffs the body of the first frame it
//! finds, and reports how many input bytes it consumed, so a caller that
//! reads from a stream can accumulate bytes and retry on `NeedMore`.

use vstd::prelude::*;

use crate::{Error, FormatError};

verus! {

pub const SLIP_END: u8 = 0xC0;

pub const SLIP_ESC: u8 = 0xDB;

pub const SLIP_ESC_END: u8 = 0xDC;

pub const SLIP_ESC_ESC: u8 = 0xDD;

/// The escaped form of one payload byte.
pub open spec fn escape_byte(b: u8) -> Seq<u8> {
    if b == SLIP_END {
        seq![SLIP_ESC, SLIP_ESC_END]
    } else if b == SLIP_ESC {
        seq![SLIP_ESC, SLIP_ESC_ESC]
    } else {
        seq![b]
    }
}

/// The byte-stuffed body of a payload: each byte replaced by its escaped
/// form.
pub open spec fn stuffed(p: Seq<u8>) -> Seq<u8>
    decreases p.len(),
{
    if p.len() == 0 {
        Seq::empty()
    } else {
        escape_byte(p[0]) + stuffed(p.drop_first())
    }
}

/// Appending one byte to the payload appends its escaped form to the
/// stuffed body.
pub proof fn lemma_stuffed_push(p: Seq<u8>, b: u8)
    ensures
        stuffed(p.push(b)) == stuffed(p) + escape_byte(b),
    decreases p.len(),
{
    if p.len() == 0 {
        assert(p.push(b)[0] == b);
        assert(p.push(b).drop_first() =~= Seq::<u8>::empty());
        assert(stuffed(Seq::<u8>::empty()) =~= Seq::<u8>::empty());
        assert(stuffed(p.push(b)) =~= stuffed(p) + escape_byte(b));
    } else {
        lemma_stuffed_push(p.drop_first(), b);
        assert(p.push(b)[0] == p[0]);
        assert(p.push(b).drop_first() =~= p.drop_first().push(b));
        assert(stuffed(p.push(b)) =~= stuffed(p) + escape_byte(b));
    }
}

/// A whole SLIP frame: delimiter, stuffed body, delimiter.
pub open spec fn frame(p: Seq<u8>) -> Seq<u8> {
    seq![SLIP_END] + stuffed(p) + seq![SLIP_END]
}

/// A stuffed body never contains the delimiter.
pub proof fn lemma_stuffed_no_end(p: Seq<u8>)
    ensures
        forall|i: int| 0 <= i < stuffed(p).len() ==> stuffed(p)[i] != SLIP_END,
    decreases p.len(),
{
    if p.len() > 0 {
        lemma_stuffed_no_end(p.drop_first());
        let e = escape_byte(p[0]);
        let rest = stuffed(p.drop_first());
        assert forall|i: int| 0 <= i < stuffed(p).len() implies stuffed(p)[i] != SLIP_END by {
            if i < e.len() {
                assert(stuffed(p)[i] == e[i]);
            } else {
                assert(stuffed(p)[i] == rest[i - e.len()]);
            }
        }
    }
}

/// SLIP-encode a payload.
pub fn encode(payload: &[u8]) -> (r: Vec<u8>)
    ensures
        r@ == frame(payload@),
{
    let mut out: Vec<u8> = Vec::new();
    out.push(SLIP_END);
    let mut i: usize = 0;
    proof {
        assert(payload@.take(0) =~= Seq::<u8>::empty());
        assert(out@ =~= seq![SLIP_END] + stuffed(payload@.take(0)));
    }
    while i < payload.len()
        invariant
            i <= payload@.len(),
            out@ == seq![SLIP_END] + stuffed(payload@.take(i as int)),
        decreases payload@.len() - i,
    {
        let b = payload[i];
        if b == SLIP_END {
            out.push(SLIP_ESC);
            out.push(SLIP_ESC_END);
        } else if b == SLIP_ESC {
            out.push(SLIP_ESC);
            out.push(SLIP_ESC_ESC);
        } else {
            out.push(b);
        }
        i = i + 1;
        proof {
            assert(payload@.take(i as int) =~= payload@.take(i as int - 1).push(b));
            lemma_stuffed_push(payload@.take(i as int - 1), b);
            assert(out@ =~= seq![SLIP_END] + stuffed(payload@.take(i as int)));
        }
    }
    out.push(SLIP_END);
    proof {
        assert(payload@.take(payload@.len() as int) =~= payload@);
        assert(out@ =~= frame(payload@));
    }
    out
}

/// What `decode` found in the input.
#[derive(Clone, Debug, PartialEq, Eq)]
pub enum DecodeResult {
    /// A complete frame: its unstuffed payload, and how many input bytes
    /// were consumed (through the closing delimiter).
    Frame(Vec<u8>, usize),
    /// The input ends before the closing delimiter; read more bytes and
    /// decode again from the start.
    NeedMore,
    /// The escape byte was followed by neither 0xDC nor 0xDD.
    BadEscape,
}

/// Unstuffing of a frame body, as a specification: `None` when the body
/// contains an invalid escape (a dangling escape at the end included).
pub open spec fn unstuffed(s: Seq<u8>) -> Option<Seq<u8>>
    decreases s.len(),
{
    if s.len() == 0 {
        Some(Seq::empty())
    } else if s[0] == SLIP_ESC {
        if s.len() >= 2 && (s[1] == SLIP_ESC_END || s[1] == SLIP_ESC_ESC) {
            let b: u8 = if s[1] == SLIP_ESC_END {
                SLIP_END
            } else {
                SLIP_ESC
            };
            match unstuffed(s.skip(2)) {
                Some(rest) => Some(seq![b] + rest),
                None => None,
            }
        } else {
            None
        }
    } else {
        match unstuffed(s.skip(1)) {
            Some(rest) => Some(seq![s[0]] + rest),
            None => None,
        }
    }
}

/// Where the body of the first frame in `s` starts: a leading delimiter
/// opens the frame; without one the decoder resynchronises on the bytes
/// already in flight, as a stream receiver does.
pub open spec fn body_start(s: Seq<u8>) -> int {
    if s.len() > 0 && s[0] == SLIP_END {
        1
    } else {
        0
    }
}

/// Decode the first SLIP frame of `input`.
///
/// A frame is everything from the opening delimiter (if present) up to the
/// next delimiter; two adjacent delimiters are an empty frame.  `Frame`
/// carries the unstuffed payload and the count of input bytes consumed,
/// closing delimiter included.  Without a closing delimiter nothing is
/// consumed and the caller must supply more input.
pub fn decode(input: &[u8]) -> (r: DecodeResult)
    ensures
        match r {
            DecodeResult::Frame(p, consumed) => {
                &&& body_start(input@) < consumed <= input@.len()
                &&& input@[consumed - 1] == SLIP_END
                &&& forall|m: int|
                    body_start(input@) <= m < consumed - 1 ==> input@[m] != SLIP_END
                &&& unstuffed(input@.subrange(body_start(input@), consumed - 1)) == Some(p@)
            },
            DecodeResult::NeedMore => forall|m: int|
                body_start(input@) <= m < input@.len() ==> input@[m] != SLIP_END,
            DecodeResult::BadEscape => exists|j: int|
                {
                    &&& body_start(input@) <= j < input@.len()
                    &&& input@[j] == SLIP_END
                    &&& (forall|m: int| body_start(input@) <= m < j ==> input@[m] != SLIP_END)
                    &&& unstuffed(input@.subrange(body_start(input@), j)) is None
                },
        },
{
    let n = input.len();
    let k: usize = if n > 0 && input[0] == SLIP_END {
        1
    } else {
        0
    };
    let mut j: usize = k;
    while j < n && input[j] != SLIP_END
        invariant
            n == input@.len(),
            k == body_start(input@),
            k <= j <= n,
            forall|m: int| k <= m < j ==> input@[m] != SLIP_END,
        decreases n - j,
    {
        j = j + 1;
    }
    if j == n {
        return DecodeResult::NeedMore;
    }
    // input[j] is the closing delimiter; unstuff the body input[k..j].
    let ghost body = input@.subrange(k as int, j as int);
    let mut payload: Vec<u8> = Vec::new();
    let mut m: usize = k;
    while m < j
        invariant
            n == input@.len(),
            k == body_start(input@),
            k <= m <= j < n,
            input@[j as int] == SLIP_END,
            body == input@.subrange(k as int, j as int),
            forall|i: int| k <= i < j ==> input@[i] != SLIP_END,
            unstuffed(body) == match unstuffed(input@.subrange(m as int, j as int)) {
                Some(rest) => Some(payload@ + rest),
                None => None::<Seq<u8>>,
            },
        decreases j - m,
    {
        let ghost tail = input@.subrange(m as int, j as int);
        let b = input[m];
        if b == SLIP_ESC {
            if m + 1 == j {
                // Dangling escape at the end of the body.
                assert(unstuffed(tail) is None);
                return DecodeResult::BadEscape;
            }
            let e = input[m + 1];
            if e == SLIP_ESC_END {
                payload.push(SLIP_END);
            } else if e == SLIP_ESC_ESC {
                payload.push(SLIP_ESC);
            } else {
                assert(unstuffed(tail) is None);
                return DecodeResult::BadEscape;
            }
            m = m + 2;
            proof {
                assert(tail.skip(2) =~= input@.subrange(m as int, j as int));
                assert(unstuffed(body) == match unstuffed(input@.subrange(m as int, j as int)) {
                    Some(rest) => Some(payload@ + rest),
                    None => None::<Seq<u8>>,
                }) by {
                    if let Some(rest) = unstuffed(input@.subrange(m as int, j as int)) {
                        assert(payload@.drop_last() + (seq![payload@.last()] + rest)
                            =~= payload@ + rest);
                    }
                };
            }
        } else {
            payload.push(b);
            m = m + 1;
            proof {
                assert(tail.skip(1) =~= input@.subrange(m as int, j as int));
                assert(unstuffed(body) == match unstuffed(input@.subrange(m as int, j as int)) {
                    Some(rest) => Some(payload@ + rest),
                    None => None::<Seq<u8>>,
                }) by {
                    if let Some(rest) = unstuffed(input@.subrange(m as int, j as int)) {
                        assert(payload@.drop_last() + (seq![payload@.last()] + rest)
                            =~= payload@ + rest);
                    }
                };
            }
        }
    }
    proof {
        assert(input@.subrange(j as int, j as int) =~= Seq::<u8>::empty());
        assert(payload@ + Seq::<u8>::empty() =~= payload@);
    }
    DecodeResult::Frame(payload, j + 1)
}

/// Unstuffing inverts byte-stuffing: for every payload `p`,
/// SLIP-decoding the SLIP-encoding of `p` yields `p` again.  Together with
/// the contract of `decode`, whose body scan stops at the first delimiter
/// and which a stuffed body never contains, the encoded frame of `p`
/// decodes to exactly `p`.
pub proof fn lemma_slip_round_trip(p: Seq<u8>)
    ensures
        unstuffed(stuffed(p)) == Some(p),
        frame(p).len() >= 2,
        frame(p)[0] == SLIP_END,
        frame(p)[frame(p).len() - 1] == SLIP_END,
        forall|m: int| 1 <= m < frame(p).len() - 1 ==> frame(p)[m] != SLIP_END,
        frame(p).subrange(1, frame(p).len() - 1) == stuffed(p),
    decreases p.len(),
{
    lemma_stuffed_no_end(p);
    assert(frame(p).subrange(1, frame(p).len() - 1) =~= stuffed(p));
    if p.len() == 0 {
    } else {
        lemma_slip_round_trip(p.drop_first());
        let s = stuffed(p);
        if p[0] == SLIP_END || p[0] == SLIP_ESC {
            assert(s.skip(2) =~= stuffed(p.drop_first()));
            assert(seq![p[0]] + p.drop_first() =~= p);
        } else {
            assert(s.skip(1) =~= stuffed(p.drop_first()));
            assert(seq![p[0]] + p.drop_first() =~= p);
        }
    }
}

} // verus!
