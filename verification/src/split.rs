//! Splitting byte sequences: lines separated by CRLF, path segments separated
//! by `/`, whitespace-delimited tokens of a request line, and trimming.
//!
//! Each operation has a recursive specification and an executable
//! implementation proved against it.

use vstd::prelude::*;

use crate::bytes::subvec;

verus! {

pub const CR: u8 = 13;

pub const LF: u8 = 10;

pub const SLASH: u8 = 47;

/// Whether `b` is an ASCII whitespace byte (tab, LF, VT, FF, CR or space).
pub open spec fn is_ws(b: u8) -> bool {
    b == 9 || b == 10 || b == 11 || b == 12 || b == 13 || b == 32
}

fn is_ws_byte(b: u8) -> (r: bool)
    ensures
        r == is_ws(b),
{
    b == 9 || b == 10 || b == 11 || b == 12 || b == 13 || b == 32
}

/// Length of the leading run of `s` that holds no `sep` byte.
pub open spec fn seg_len(s: Seq<u8>, sep: u8) -> nat
    decreases s.len(),
{
    if s.len() == 0 || s[0] == sep {
        0
    } else {
        1 + seg_len(s.drop_first(), sep)
    }
}

pub proof fn lemma_seg_len_bounds(s: Seq<u8>, sep: u8)
    ensures
        seg_len(s, sep) <= s.len(),
        forall|i: int| 0 <= i < seg_len(s, sep) ==> s[i] != sep,
        seg_len(s, sep) < s.len() ==> s[seg_len(s, sep) as int] == sep,
    decreases s.len(),
{
    if s.len() != 0 && s[0] != sep {
        lemma_seg_len_bounds(s.drop_first(), sep);
        assert forall|i: int| 0 <= i < seg_len(s, sep) implies s[i] != sep by {
            if i > 0 {
                assert(s.drop_first()[i - 1] != sep);
            }
        }
    }
}

/// The leading run before the first `sep` has length `k` exactly when the
/// bytes below `k` avoid `sep` and position `k` is `sep` or the end.
pub proof fn lemma_seg_len_char(s: Seq<u8>, sep: u8, k: int)
    requires
        0 <= k <= s.len(),
        forall|i: int| 0 <= i < k ==> s[i] != sep,
        k < s.len() ==> s[k] == sep,
    ensures
        seg_len(s, sep) == k,
    decreases k,
{
    if k > 0 {
        lemma_seg_len_char(s.drop_first(), sep, k - 1);
    }
}

/// The pieces of `s` between occurrences of `sep`, in order; always at least
/// one piece, and empty pieces where separators touch.
pub open spec fn split_byte(s: Seq<u8>, sep: u8) -> Seq<Seq<u8>>
    decreases s.len(),
{
    let k = seg_len(s, sep) as int;
    if k < s.len() {
        seq![s.take(k)] + split_byte(s.skip(k + 1), sep)
    } else {
        seq![s]
    }
}

/// The pieces joined back with `sep` between them.
pub open spec fn join_byte(parts: Seq<Seq<u8>>, sep: u8) -> Seq<u8>
    decreases parts.len(),
{
    if parts.len() == 0 {
        Seq::empty()
    } else if parts.len() == 1 {
        parts[0]
    } else {
        parts[0] + seq![sep] + join_byte(parts.drop_first(), sep)
    }
}

/// Joining the pieces of a split restores the original sequence.
pub proof fn lemma_join_split(s: Seq<u8>, sep: u8)
    ensures
        join_byte(split_byte(s, sep), sep) == s,
    decreases s.len(),
{
    lemma_seg_len_bounds(s, sep);
    let k = seg_len(s, sep) as int;
    if k < s.len() {
        lemma_join_split(s.skip(k + 1), sep);
        let rest = split_byte(s.skip(k + 1), sep);
        let parts = seq![s.take(k)] + rest;
        assert(parts.drop_first() =~= rest);
        assert(parts[0] + seq![sep] + s.skip(k + 1) =~= s);
    }
}

/// The pieces of `v` between occurrences of `sep`.
pub fn split_byte_vec(v: &Vec<u8>, sep: u8) -> (r: Vec<Vec<u8>>)
    ensures
        r.deep_view() == split_byte(v@, sep),
        r.len() >= 1,
{
    let mut parts: Vec<Vec<u8>> = Vec::new();
    let mut start: usize = 0;
    let mut i: usize = 0;
    proof {
        assert(v@.skip(0) =~= v@);
        assert(parts.deep_view() + split_byte(v@, sep) =~= split_byte(v@, sep));
    }
    while i < v.len()
        invariant
            start <= i <= v@.len(),
            forall|j: int| start <= j < i ==> v@[j] != sep,
            split_byte(v@, sep) == parts.deep_view() + split_byte(v@.skip(start as int), sep),
        decreases v@.len() - i,
    {
        if v[i] == sep {
            proof {
                lemma_seg_len_char(v@.skip(start as int), sep, i - start);
                assert(v@.skip(start as int).take(i - start) =~= v@.subrange(
                    start as int,
                    i as int,
                ));
                assert(v@.skip(start as int).skip(i - start + 1) =~= v@.skip(i + 1));
            }
            let piece = subvec(v, start, i);
            let ghost prev = parts.deep_view();
            parts.push(piece);
            proof {
                assert(parts.deep_view() =~~= prev + seq![piece@]);
                assert(prev + seq![piece@] + split_byte(v@.skip(i + 1), sep) =~= prev + (seq![
                    piece@,
                ] + split_byte(v@.skip(i + 1), sep)));
            }
            start = i + 1;
        }
        i += 1;
    }
    proof {
        lemma_seg_len_char(v@.skip(start as int), sep, v@.len() - start);
        assert(v@.skip(start as int).take(v@.len() - start) =~= v@.skip(start as int));
    }
    let piece = subvec(v, start, v.len());
    let ghost prev = parts.deep_view();
    parts.push(piece);
    proof {
        assert(piece@ =~= v@.skip(start as int));
        assert(parts.deep_view() =~~= prev + seq![v@.skip(start as int)]);
        assert(parts.deep_view() =~= split_byte(v@, sep));
    }
    parts
}

/// Whether a CRLF pair stands at position `i` of `s`.
pub open spec fn crlf_at(s: Seq<u8>, i: int) -> bool {
    0 <= i && i + 2 <= s.len() && s[i] == CR && s[i + 1] == LF
}

/// Length of the first line of `s`: the prefix before the first CRLF pair, or
/// all of `s` when it holds none.
pub open spec fn line_len(s: Seq<u8>) -> nat
    decreases s.len(),
{
    if s.len() < 2 {
        s.len()
    } else if s[0] == CR && s[1] == LF {
        0
    } else {
        1 + line_len(s.drop_first())
    }
}

pub proof fn lemma_line_len_char(s: Seq<u8>, k: int)
    requires
        0 <= k <= s.len(),
        forall|i: int| 0 <= i < k ==> !crlf_at(s, i),
        k < s.len() ==> crlf_at(s, k),
    ensures
        line_len(s) == k,
    decreases k,
{
    if k == 0 {
    } else {
        assert forall|i: int| 0 <= i < k - 1 implies !crlf_at(s.drop_first(), i) by {
            assert(!crlf_at(s, i + 1));
        }
        if k - 1 < s.drop_first().len() {
            assert(crlf_at(s, k));
        }
        lemma_line_len_char(s.drop_first(), k - 1);
        assert(!crlf_at(s, 0));
    }
}

/// The lines of `s`: the pieces between CRLF pairs, in order; always at least
/// one line.
pub open spec fn split_crlf(s: Seq<u8>) -> Seq<Seq<u8>>
    decreases s.len(),
{
    let k = line_len(s) as int;
    if k + 2 <= s.len() {
        seq![s.take(k)] + split_crlf(s.skip(k + 2))
    } else {
        seq![s]
    }
}

/// The lines of `v`: the pieces between CRLF pairs.
pub fn split_crlf_vec(v: &Vec<u8>) -> (r: Vec<Vec<u8>>)
    ensures
        r.deep_view() == split_crlf(v@),
        r.len() >= 1,
{
    let mut parts: Vec<Vec<u8>> = Vec::new();
    let mut start: usize = 0;
    let mut i: usize = 0;
    proof {
        assert(v@.skip(0) =~= v@);
        assert(parts.deep_view() + split_crlf(v@) =~= split_crlf(v@));
    }
    while 1 < v.len() && i < v.len() - 1
        invariant
            start <= i <= v@.len(),
            forall|j: int| start <= j < i ==> !crlf_at(v@, j),
            split_crlf(v@) == parts.deep_view() + split_crlf(v@.skip(start as int)),
        decreases v@.len() - i,
    {
        if v[i] == CR && v[i + 1] == LF {
            proof {
                assert forall|j: int| 0 <= j < i - start implies !crlf_at(
                    v@.skip(start as int),
                    j,
                ) by {
                    assert(!crlf_at(v@, start + j));
                }
                assert(crlf_at(v@.skip(start as int), i - start));
                lemma_line_len_char(v@.skip(start as int), i - start);
                assert(v@.skip(start as int).take(i - start) =~= v@.subrange(
                    start as int,
                    i as int,
                ));
                assert(v@.skip(start as int).skip(i - start + 2) =~= v@.skip(i + 2));
            }
            let piece = subvec(v, start, i);
            let ghost prev = parts.deep_view();
            parts.push(piece);
            proof {
                assert(parts.deep_view() =~~= prev + seq![piece@]);
                assert(prev + seq![piece@] + split_crlf(v@.skip(i + 2)) =~= prev + (seq![
                    piece@,
                ] + split_crlf(v@.skip(i + 2))));
            }
            start = i + 2;
            i = i + 2;
        } else {
            i += 1;
        }
    }
    proof {
        assert forall|j: int| 0 <= j < v@.len() - start implies !crlf_at(
            v@.skip(start as int),
            j,
        ) by {
            if start + j < i {
                assert(!crlf_at(v@, start + j));
            } else {
                assert(start + j + 2 > v@.len());
            }
        }
        lemma_line_len_char(v@.skip(start as int), v@.len() - start);
        assert(v@.skip(start as int).take(v@.len() - start) =~= v@.skip(start as int));
    }
    let piece = subvec(v, start, v.len());
    let ghost prev = parts.deep_view();
    parts.push(piece);
    proof {
        assert(piece@ =~= v@.skip(start as int));
        assert(parts.deep_view() =~~= prev + seq![v@.skip(start as int)]);
        assert(parts.deep_view() =~= split_crlf(v@));
    }
    parts
}

/// Length of the leading run of non-whitespace bytes of `s`.
pub open spec fn token_len(s: Seq<u8>) -> nat
    decreases s.len(),
{
    if s.len() == 0 || is_ws(s[0]) {
        0
    } else {
        1 + token_len(s.drop_first())
    }
}

pub proof fn lemma_token_len_le(s: Seq<u8>)
    ensures
        token_len(s) <= s.len(),
    decreases s.len(),
{
    if s.len() != 0 && !is_ws(s[0]) {
        lemma_token_len_le(s.drop_first());
    }
}

pub proof fn lemma_token_len_char(s: Seq<u8>, k: int)
    requires
        0 <= k <= s.len(),
        forall|i: int| 0 <= i < k ==> !is_ws(s[i]),
        k < s.len() ==> is_ws(s[k]),
    ensures
        token_len(s) == k,
    decreases k,
{
    if k > 0 {
        lemma_token_len_char(s.drop_first(), k - 1);
    }
}

/// The maximal runs of non-whitespace bytes of `s`, in order.
pub open spec fn ws_tokens(s: Seq<u8>) -> Seq<Seq<u8>>
    decreases s.len(),
{
    if s.len() == 0 {
        Seq::empty()
    } else if is_ws(s[0]) {
        ws_tokens(s.drop_first())
    } else {
        let t = token_len(s) as int;
        proof {
            lemma_token_len_le(s);
        }
        seq![s.take(t)] + ws_tokens(s.skip(t))
    }
}

/// Every whitespace-delimited token is non-empty.
pub proof fn lemma_ws_tokens_nonempty(s: Seq<u8>)
    ensures
        forall|i: int| 0 <= i < ws_tokens(s).len() ==> #[trigger] ws_tokens(s)[i].len() > 0,
    decreases s.len(),
{
    if s.len() == 0 {
    } else if is_ws(s[0]) {
        lemma_ws_tokens_nonempty(s.drop_first());
        assert forall|i: int| 0 <= i < ws_tokens(s).len() implies #[trigger] ws_tokens(
            s,
        )[i].len() > 0 by {
            assert(ws_tokens(s)[i] == ws_tokens(s.drop_first())[i]);
        }
    } else {
        let t = token_len(s) as int;
        lemma_token_len_le(s);
        lemma_ws_tokens_nonempty(s.skip(t));
        assert forall|i: int| 0 <= i < ws_tokens(s).len() implies #[trigger] ws_tokens(
            s,
        )[i].len() > 0 by {
            if i > 0 {
                assert(ws_tokens(s)[i] == ws_tokens(s.skip(t))[i - 1]);
            }
        }
    }
}

/// The last whitespace-delimited token of `s`, or empty when `s` holds none.
pub open spec fn last_token(s: Seq<u8>) -> Seq<u8> {
    if ws_tokens(s).len() == 0 {
        Seq::empty()
    } else {
        ws_tokens(s).last()
    }
}

/// The maximal runs of non-whitespace bytes of `v`.
pub fn split_ws(v: &Vec<u8>) -> (r: Vec<Vec<u8>>)
    ensures
        r.deep_view() == ws_tokens(v@),
{
    let mut toks: Vec<Vec<u8>> = Vec::new();
    let mut i: usize = 0;
    proof {
        assert(v@.skip(0) =~= v@);
        assert(toks.deep_view() + ws_tokens(v@) =~= ws_tokens(v@));
    }
    while i < v.len()
        invariant
            i <= v@.len(),
            ws_tokens(v@) == toks.deep_view() + ws_tokens(v@.skip(i as int)),
        decreases v@.len() - i,
    {
        if is_ws_byte(v[i]) {
            proof {
                assert(v@.skip(i as int).drop_first() =~= v@.skip(i + 1));
            }
            i += 1;
        } else {
            let mut j: usize = i + 1;
            while j < v.len() && !is_ws_byte(v[j])
                invariant
                    i < j <= v@.len(),
                    forall|m: int| i <= m < j ==> !is_ws(v@[m]),
                decreases v@.len() - j,
            {
                j += 1;
            }
            proof {
                lemma_token_len_char(v@.skip(i as int), j - i);
                assert(v@.skip(i as int).take(j - i) =~= v@.subrange(i as int, j as int));
                assert(v@.skip(i as int).skip(j - i) =~= v@.skip(j as int));
            }
            let tok = subvec(v, i, j);
            let ghost prev = toks.deep_view();
            toks.push(tok);
            proof {
                assert(toks.deep_view() =~~= prev + seq![tok@]);
                assert(prev + seq![tok@] + ws_tokens(v@.skip(j as int)) =~= prev + (seq![tok@]
                    + ws_tokens(v@.skip(j as int))));
            }
            i = j;
        }
    }
    proof {
        assert(v@.skip(v@.len() as int) =~= Seq::<u8>::empty());
        assert(toks.deep_view() + ws_tokens(v@.skip(v@.len() as int)) =~= toks.deep_view());
    }
    toks
}

/// `s` without its leading whitespace bytes.
pub open spec fn trim_start(s: Seq<u8>) -> Seq<u8>
    decreases s.len(),
{
    if s.len() > 0 && is_ws(s[0]) {
        trim_start(s.drop_first())
    } else {
        s
    }
}

/// `s` without its trailing whitespace bytes.
pub open spec fn trim_end(s: Seq<u8>) -> Seq<u8>
    decreases s.len(),
{
    if s.len() > 0 && is_ws(s.last()) {
        trim_end(s.drop_last())
    } else {
        s
    }
}

/// `s` without leading and trailing whitespace bytes.
pub open spec fn trim_ws(s: Seq<u8>) -> Seq<u8> {
    trim_end(trim_start(s))
}

/// The bytes of `v` with leading and trailing whitespace removed.
pub fn trim_bytes(v: &Vec<u8>) -> (r: Vec<u8>)
    ensures
        r@ == trim_ws(v@),
{
    let mut a: usize = 0;
    proof {
        assert(v@.skip(0) =~= v@);
    }
    while a < v.len() && is_ws_byte(v[a])
        invariant
            a <= v@.len(),
            trim_start(v@) == trim_start(v@.skip(a as int)),
        decreases v@.len() - a,
    {
        proof {
            assert(v@.skip(a as int).drop_first() =~= v@.skip(a + 1));
        }
        a += 1;
    }
    if a == v.len() {
        proof {
            assert(trim_start(v@) =~= Seq::<u8>::empty());
        }
        let r: Vec<u8> = Vec::new();
        return r;
    }
    proof {
        assert(trim_start(v@) == v@.skip(a as int));
        assert(v@.skip(a as int) =~= v@.subrange(a as int, v@.len() as int));
    }
    let mut b: usize = v.len();
    while b > a && is_ws_byte(v[b - 1])
        invariant
            a < b <= v@.len(),
            a < v@.len(),
            !is_ws(v@[a as int]),
            trim_end(v@.subrange(a as int, v@.len() as int)) == trim_end(
                v@.subrange(a as int, b as int),
            ),
        decreases b,
    {
        proof {
            assert(v@.subrange(a as int, b as int).drop_last() =~= v@.subrange(
                a as int,
                b - 1,
            ));
        }
        b -= 1;
    }
    proof {
        assert(trim_end(v@.subrange(a as int, b as int)) == v@.subrange(a as int, b as int));
    }
    subvec(v, a, b)
}

} // verus!
