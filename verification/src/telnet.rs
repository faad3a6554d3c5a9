//! Telnet command filter.
//!
//! Inbound bytes carry telnet sequences introduced by the byte `IAC`. The
//! filter removes them and passes everything else through untouched:
//!
//! * `IAC IAC` stands for one data byte `0xFF`;
//! * `IAC WILL|WONT|DO|DONT option` is dropped (three bytes);
//! * `IAC` followed by a byte in `SE ..= SB` is dropped (two bytes);
//! * `IAC` followed by any lower byte is no command, and both bytes pass.
//!
//! Subnegotiation bodies are not parsed: what stands between `IAC SB` and
//! `IAC SE` passes as data.
//!
//! A sequence that the input ends in the middle of (a lone `IAC`, or `IAC`
//! and a negotiation verb without its option) is *pending*: it is left in
//! place at the end, so that it can be completed by what arrives next.

use vstd::prelude::*;

verus! {

/// Interpret As Command.
pub const IAC: u8 = 0xFF;

/// End of subnegotiation, the lowest command byte.
pub const SE: u8 = 0xF0;

/// Start of subnegotiation, the highest command byte without an option.
pub const SB: u8 = 0xFA;

pub const WILL: u8 = 0xFB;

pub const WONT: u8 = 0xFC;

pub const DO: u8 = 0xFD;

pub const DONT: u8 = 0xFE;

/// The echo option.
pub const TELOPT_ECHO: u8 = 0x01;

/// Number of bytes that the item at the head of `s` occupies, or 0 where
/// `s` ends before the item is complete.
pub open spec fn head_len(s: Seq<u8>) -> int
    recommends
        s.len() > 0,
{
    if s[0] != IAC {
        1
    } else if s.len() < 2 {
        0
    } else if s[1] == IAC {
        2
    } else if s[1] >= WILL {
        if s.len() < 3 {
            0
        } else {
            3
        }
    } else if s[1] >= SE {
        2
    } else {
        1
    }
}

/// Position, within a complete item at the head of `s`, of the byte that
/// passes the filter, if one does.
pub open spec fn head_kept(s: Seq<u8>) -> Option<int>
    recommends
        s.len() > 0,
        head_len(s) > 0,
{
    if s[0] != IAC {
        Some(0)
    } else if s[1] == IAC {
        Some(1)
    } else if s[1] < SE {
        Some(0)
    } else {
        None
    }
}

/// Positions in `s`, each shifted by `base`, of the bytes that belong to no
/// telnet command and to no pending sequence, in ascending order.
pub open spec fn payload_indices(s: Seq<u8>, base: int) -> Seq<int>
    decreases s.len(),
{
    if s.len() == 0 || head_len(s) == 0 {
        Seq::empty()
    } else {
        let rest = payload_indices(s.skip(head_len(s)), base + head_len(s));
        match head_kept(s) {
            Some(k) => seq![base + k] + rest,
            None => rest,
        }
    }
}

/// The data bytes of `s`: what is left of its complete items once the
/// telnet commands are removed.
pub open spec fn payload(s: Seq<u8>) -> Seq<u8>
    decreases s.len(),
{
    if s.len() == 0 || head_len(s) == 0 {
        Seq::empty()
    } else {
        let rest = payload(s.skip(head_len(s)));
        match head_kept(s) {
            Some(k) => seq![s[k]] + rest,
            None => rest,
        }
    }
}

/// The incomplete sequence that `s` ends in; empty where it ends in none.
pub open spec fn pending(s: Seq<u8>) -> Seq<u8>
    decreases s.len(),
{
    if s.len() == 0 || head_len(s) == 0 {
        s
    } else {
        pending(s.skip(head_len(s)))
    }
}

/// What the filter makes of `s` on its own: the data bytes, then the
/// pending sequence left in place.
pub open spec fn filtered(s: Seq<u8>) -> Seq<u8> {
    payload(s) + pending(s)
}

/// A pending sequence is at most two bytes long and begins with `IAC`.
pub proof fn lemma_pending_shape(s: Seq<u8>)
    ensures
        pending(s).len() <= 2,
        pending(s).len() <= s.len(),
        pending(s).len() > 0 ==> pending(s)[0] == IAC,
        pending(s).len() == 2 ==> WILL <= pending(s)[1] <= DONT,
        pending(s) == s.skip(s.len() - pending(s).len()),
        payload(pending(s)) == Seq::<u8>::empty(),
        pending(pending(s)) == pending(s),
    decreases s.len(),
{
    if s.len() == 0 || head_len(s) == 0 {
        assert(s.skip(0) =~= s);
    } else {
        let t = s.skip(head_len(s));
        lemma_pending_shape(t);
        assert(t.skip(t.len() - pending(t).len()) =~= s.skip(s.len() - pending(t).len()));
    }
}

/// Every byte of the input that is part of no telnet command passes the
/// filter exactly once, and in the order of arrival: the data bytes are the
/// input read at `payload_indices`, which ascend strictly and stop short of
/// the pending sequence.
pub proof fn lemma_payload_in_order(s: Seq<u8>, base: int)
    ensures
        payload_indices(s, base).len() == payload(s).len(),
        forall|k: int|
            0 <= k < payload(s).len() ==> base <= #[trigger] payload_indices(s, base)[k] < base
                + s.len() - pending(s).len(),
        forall|k: int|
            0 <= k < payload(s).len() ==> payload(s)[k] == s[#[trigger] payload_indices(
                s,
                base,
            )[k] - base],
        forall|j: int, k: int|
            0 <= j < k < payload(s).len() ==> payload_indices(s, base)[j] < payload_indices(
                s,
                base,
            )[k],
    decreases s.len(),
{
    if s.len() == 0 || head_len(s) == 0 {
    } else {
        let n = head_len(s);
        let t = s.skip(n);
        lemma_payload_in_order(t, base + n);
        lemma_pending_shape(s);
        lemma_pending_shape(t);
        let rest = payload_indices(t, base + n);
        assert forall|k: int| 0 <= k < payload(t).len() implies payload(t)[k] == s[rest[k]
            - base] by {
            assert(t[rest[k] - (base + n)] == s[rest[k] - base]);
        }
    }
}

/// Input without any `IAC` passes unchanged.
pub proof fn lemma_filtered_plain(s: Seq<u8>)
    requires
        forall|i: int| 0 <= i < s.len() ==> s[i] != IAC,
    ensures
        payload(s) == s,
        pending(s) == Seq::<u8>::empty(),
        filtered(s) == s,
    decreases s.len(),
{
    if s.len() > 0 {
        let t = s.skip(1);
        assert forall|i: int| 0 <= i < t.len() implies t[i] != IAC by {
            assert(t[i] == s[i + 1]);
        }
        lemma_filtered_plain(t);
        assert(seq![s[0]] + t =~= s);
    }
    assert(payload(s) + pending(s) =~= s);
}

/// The filter works on a stream as on its whole: cutting the input into
/// chunks anywhere, and carrying the pending sequence of each chunk over to
/// the next, yields the same data bytes and the same pending sequence.
pub proof fn lemma_filter_chunks(a: Seq<u8>, b: Seq<u8>)
    ensures
        payload(a + b) == payload(a) + payload(pending(a) + b),
        pending(a + b) == pending(pending(a) + b),
    decreases a.len(),
{
    if a.len() == 0 || head_len(a) == 0 {
        assert(payload(a) + payload(pending(a) + b) =~= payload(a + b));
    } else {
        let n = head_len(a);
        let ab = a + b;
        assert(head_len(ab) == n);
        assert(head_kept(ab) == head_kept(a));
        assert(ab.skip(n) =~= a.skip(n) + b);
        lemma_filter_chunks(a.skip(n), b);
        match head_kept(a) {
            Some(k) => {
                assert(ab[k] == a[k]);
                assert(payload(ab) =~= payload(a) + payload(pending(a) + b));
            },
            None => {},
        }
    }
}

/// An escaped `IAC` is one data byte `0xFF`: behind input that ends in no
/// pending sequence, `IAC IAC` adds exactly that byte to the data, and what
/// follows is filtered on its own.
pub proof fn lemma_escaped_iac(before: Seq<u8>, after: Seq<u8>)
    requires
        pending(before).len() == 0,
    ensures
        payload(before + seq![IAC, IAC] + after) == payload(before) + seq![IAC] + payload(after),
        pending(before + seq![IAC, IAC] + after) == pending(after),
{
    let escaped = seq![IAC, IAC] + after;
    lemma_filter_chunks(before, escaped);
    assert(before + seq![IAC, IAC] + after =~= before + escaped);
    assert(pending(before) + escaped =~= escaped);
    assert(head_len(escaped) == 2);
    assert(escaped.skip(2) =~= after);
    assert(payload(before) + payload(escaped) =~= payload(before) + seq![IAC] + payload(after));
}

/// Splits `data` into its data bytes and the incomplete sequence at its end.
pub fn split_telnet(data: &[u8]) -> (r: (Vec<u8>, Vec<u8>))
    ensures
        r.0@ == payload(data@),
        r.1@ == pending(data@),
{
    let n = data.len();
    let mut out: Vec<u8> = Vec::new();
    let mut i: usize = 0;
    let mut stop = false;
    assert(data@.skip(0) =~= data@);
    while i < n && !stop
        invariant
            n == data@.len(),
            i <= n,
            payload(data@) == out@ + payload(data@.skip(i as int)),
            pending(data@) == pending(data@.skip(i as int)),
            stop ==> i < n && head_len(data@.skip(i as int)) == 0,
        decreases n - i + if stop { 0int } else { 1int },
    {
        let ghost s = data@.skip(i as int);
        assert(s.len() == n - i);
        assert(s[0] == data@[i as int]);
        let b = data[i];
        let mut len: usize = 1;
        let mut keep: Option<u8> = Some(b);
        if b == IAC {
            if n - i < 2 {
                len = 0;
            } else {
                assert(s[1] == data@[i + 1]);
                let c = data[i + 1];
                if c == IAC {
                    len = 2;
                } else if c >= WILL {
                    keep = None;
                    len = if n - i < 3 { 0 } else { 3 };
                } else if c >= SE {
                    keep = None;
                    len = 2;
                }
            }
        }
        assert(len == head_len(s));
        if len == 0 {
            stop = true;
        } else {
            assert(s.skip(len as int) =~= data@.skip(i + len));
            match keep {
                Some(k) => {
                    assert(head_kept(s) is Some && s[head_kept(s).unwrap()] == k);
                    assert(out@.push(k) + payload(s.skip(len as int)) =~= out@ + payload(s));
                    out.push(k);
                },
                None => {
                    assert(head_kept(s) is None);
                },
            }
            i = i + len;
        }
    }
    let mut rest: Vec<u8> = Vec::new();
    let mut j: usize = i;
    proof {
        if !stop {
            assert(data@.skip(i as int).len() == 0);
        }
        assert(pending(data@) == data@.skip(i as int));
        assert(payload(data@.skip(i as int)) == Seq::<u8>::empty());
        assert(payload(data@) =~= out@);
    }
    while j < n
        invariant
            n == data@.len(),
            i <= j <= n,
            rest@ == data@.subrange(i as int, j as int),
        decreases n - j,
    {
        rest.push(data[j]);
        j = j + 1;
        assert(rest@ =~= data@.subrange(i as int, j as int));
    }
    assert(rest@ =~= data@.skip(i as int));
    (out, rest)
}

/// Removes the telnet commands from `data`. An incomplete sequence at the
/// end of `data` is left in place.
pub fn handle_telnet_commands(data: Vec<u8>) -> (out: Vec<u8>)
    ensures
        out@ == filtered(data@),
{
    let (mut out, mut rest) = split_telnet(data.as_slice());
    out.append(&mut rest);
    out
}

} // verus!
