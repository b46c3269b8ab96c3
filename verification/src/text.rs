//! Byte-level text utilities shared by the readiness scanner and the status
//! parser: substring search, whitespace tokenization, line splitting, and
//! unsigned-integer parsing. All text the harness inspects is ASCII log and
//! table output, so the model works on byte sequences.

use vstd::prelude::*;

verus! {

/// ASCII whitespace: space, tab, carriage return, line feed.
pub open spec fn is_ws(b: u8) -> bool {
    b == 32 || b == 9 || b == 13 || b == 10
}

/// Executable mirror of `is_ws`.
pub fn byte_is_ws(b: u8) -> (r: bool)
    ensures
        r == is_ws(b),
{
    b == 32 || b == 9 || b == 13 || b == 10
}

/// `hay` holds `needle` as a contiguous run of bytes.
pub open spec fn contains_seq(hay: Seq<u8>, needle: Seq<u8>) -> bool {
    exists|i: int|
        0 <= i && i + needle.len() <= hay.len() && #[trigger] hay.subrange(
            i,
            i + needle.len() as int,
        ) == needle
}

/// Whether `needle` occurs in `hay` starting exactly at index `i`.
fn match_at(hay: &[u8], needle: &[u8], i: usize) -> (r: bool)
    requires
        i + needle@.len() <= hay@.len(),
    ensures
        r == (hay@.subrange(i as int, i as int + needle@.len() as int) == needle@),
{
    let n = needle.len();
    let hlen = hay.len();
    let mut j: usize = 0;
    while j < n
        invariant
            n == needle@.len(),
            hlen == hay@.len(),
            i + n <= hay@.len(),
            j <= n,
            forall|k: int| 0 <= k < j ==> hay@[i + k] == needle@[k],
        decreases n - j,
    {
        if hay[i + j] != needle[j] {
            assert(hay@.subrange(i as int, i as int + needle@.len() as int)[j as int]
                == hay@[i + j]);
            return false;
        }
        j += 1;
    }
    assert(hay@.subrange(i as int, i as int + needle@.len() as int) =~= needle@);
    true
}

/// Substring search with an exact containment contract.
pub fn contains_sub(hay: &[u8], needle: &[u8]) -> (r: bool)
    ensures
        r == contains_seq(hay@, needle@),
{
    let hn = hay.len();
    let nn = needle.len();
    if nn > hn {
        assert(!contains_seq(hay@, needle@));
        return false;
    }
    if nn == 0 {
        assert(contains_seq(hay@, needle@)) by {
            assert(hay@.subrange(0, 0 + needle@.len() as int) =~= needle@);
        }
        return true;
    }
    let mut i: usize = 0;
    while i <= hn - nn
        invariant
            hn == hay@.len(),
            nn == needle@.len(),
            0 < nn <= hn,
            i <= hn - nn + 1,
            forall|k: int|
                0 <= k < i ==> #[trigger] hay@.subrange(k, k + needle@.len() as int)
                    != needle@,
        decreases hn - nn - i + 1,
    {
        if match_at(hay, needle, i) {
            return true;
        }
        i += 1;
    }
    false
}

/// The whitespace-separated tokens of `s`: maximal runs of non-whitespace
/// bytes, in order. Defined by folding over the bytes from the right.
pub open spec fn split_ws_spec(s: Seq<u8>) -> Seq<Seq<u8>>
    decreases s.len(),
{
    if s.len() == 0 {
        Seq::empty()
    } else {
        let rest = split_ws_spec(s.drop_last());
        let b = s.last();
        if is_ws(b) {
            rest
        } else if s.len() >= 2 && !is_ws(s[s.len() - 2]) {
            rest.update(rest.len() - 1, rest.last().push(b))
        } else {
            rest.push(seq![b])
        }
    }
}

/// A byte string ending in non-whitespace has at least one token.
pub proof fn lemma_split_ws_nonempty(s: Seq<u8>)
    requires
        s.len() > 0,
        !is_ws(s.last()),
    ensures
        split_ws_spec(s).len() >= 1,
    decreases s.len(),
{
    if s.len() >= 2 && !is_ws(s[s.len() - 2]) {
        lemma_split_ws_nonempty(s.drop_last());
    }
}

/// Tokenizes `s` on ASCII whitespace.
pub fn split_ws(s: &[u8]) -> (r: Vec<Vec<u8>>)
    ensures
        r.deep_view() == split_ws_spec(s@),
{
    let n = s.len();
    let mut r: Vec<Vec<u8>> = Vec::new();
    let mut i: usize = 0;
    while i < n
        invariant
            n == s@.len(),
            i <= n,
            r.deep_view() == split_ws_spec(s@.take(i as int)),
        decreases n - i,
    {
        let b = s[i];
        proof {
            assert(s@.take(i + 1).drop_last() =~= s@.take(i as int));
            assert(s@.take(i + 1).last() == s@[i as int]);
        }
        if !byte_is_ws(b) {
            if i > 0 && !byte_is_ws(s[i - 1]) {
                proof {
                    lemma_split_ws_nonempty(s@.take(i as int));
                    assert(r.deep_view().len() == r@.len());
                }
                let mut t = r.pop().unwrap();
                t.push(b);
                r.push(t);
                proof {
                    let prev = split_ws_spec(s@.take(i as int));
                    assert(r.deep_view() =~~= prev.update(
                        prev.len() - 1,
                        prev.last().push(s@[i as int]),
                    ));
                }
            } else {
                let mut t: Vec<u8> = Vec::new();
                t.push(b);
                r.push(t);
                proof {
                    let prev = split_ws_spec(s@.take(i as int));
                    assert(r.deep_view() =~~= prev.push(seq![s@[i as int]]));
                }
            }
        }
        i += 1;
    }
    proof {
        assert(s@.take(n as int) =~= s@);
    }
    r
}

/// The last whitespace-separated token of `s`, or the empty sequence when `s`
/// holds no token at all.
pub open spec fn last_token_spec(s: Seq<u8>) -> Seq<u8> {
    if split_ws_spec(s).len() == 0 {
        Seq::empty()
    } else {
        split_ws_spec(s).last()
    }
}

/// Copies a byte vector element by element.
pub fn copy_bytes(src: &Vec<u8>) -> (r: Vec<u8>)
    ensures
        r@ == src@,
{
    let n = src.len();
    let mut r: Vec<u8> = Vec::new();
    let mut i: usize = 0;
    while i < n
        invariant
            n == src@.len(),
            i <= n,
            r@ == src@.take(i as int),
        decreases n - i,
    {
        r.push(src[i]);
        proof {
            assert(r@ =~= src@.take(i + 1));
        }
        i += 1;
    }
    proof {
        assert(src@.take(n as int) =~= src@);
    }
    r
}

/// Extracts the last token of a line, as the readiness scanner does for the
/// port column of a marker line.
pub fn last_token(s: &[u8]) -> (r: Vec<u8>)
    ensures
        r@ == last_token_spec(s@),
{
    let toks = split_ws(s);
    proof {
        assert(toks.deep_view().len() == toks@.len());
    }
    if toks.len() == 0 {
        Vec::new()
    } else {
        let idx = toks.len() - 1;
        proof {
            assert(toks.deep_view()[idx as int] == toks@[idx as int].deep_view());
        }
        copy_bytes(&toks[idx])
    }
}

/// Byte-for-byte equality of two byte strings.
pub fn bytes_eq(a: &Vec<u8>, b: &[u8]) -> (r: bool)
    ensures
        r == (a@ == b@),
{
    let n = a.len();
    if n != b.len() {
        return false;
    }
    let mut i: usize = 0;
    while i < n
        invariant
            n == a@.len(),
            n == b@.len(),
            i <= n,
            forall|k: int| 0 <= k < i ==> a@[k] == b@[k],
        decreases n - i,
    {
        if a[i] != b[i] {
            return false;
        }
        i += 1;
    }
    proof {
        assert(a@ =~= b@);
    }
    true
}

/// ASCII decimal digit.
pub open spec fn is_digit(b: u8) -> bool {
    48 <= b <= 57
}

pub open spec fn all_digits(s: Seq<u8>) -> bool {
    forall|i: int| 0 <= i < s.len() ==> is_digit(#[trigger] s[i])
}

/// Value of a string of decimal digits, most significant first.
pub open spec fn digits_val(s: Seq<u8>) -> nat
    decreases s.len(),
{
    if s.len() == 0 {
        0
    } else {
        digits_val(s.drop_last()) * 10 + (s.last() - 48) as nat
    }
}

/// The digit value of a prefix never exceeds the value of the whole string.
pub proof fn lemma_digits_val_prefix(s: Seq<u8>, i: int)
    requires
        all_digits(s),
        0 <= i <= s.len(),
    ensures
        digits_val(s.take(i)) <= digits_val(s),
    decreases s.len(),
{
    if i < s.len() {
        assert(s.drop_last().take(i) =~= s.take(i));
        lemma_digits_val_prefix(s.drop_last(), i);
    } else {
        assert(s.take(i) =~= s);
    }
}

/// What successful parsing of an unsigned decimal returns: the whole string
/// must be nonempty, all digits, and fit in the type.
pub open spec fn parse_u32_spec(s: Seq<u8>) -> Option<u32> {
    if s.len() > 0 && all_digits(s) && digits_val(s) <= u32::MAX {
        Some(digits_val(s) as u32)
    } else {
        None
    }
}

/// Parses an unsigned decimal number, rejecting empty input, non-digit bytes
/// and overflow, exactly as `parse_u32_spec` states.
pub fn parse_u32(s: &[u8]) -> (r: Option<u32>)
    ensures
        r == parse_u32_spec(s@),
{
    let n = s.len();
    if n == 0 {
        return None;
    }
    let mut acc: u32 = 0;
    let mut i: usize = 0;
    while i < n
        invariant
            n == s@.len(),
            i <= n,
            all_digits(s@.take(i as int)),
            acc == digits_val(s@.take(i as int)),
        decreases n - i,
    {
        let b = s[i];
        if b < 48 || b > 57 {
            assert(!all_digits(s@));
            return None;
        }
        proof {
            assert(s@.take(i + 1).drop_last() =~= s@.take(i as int));
            assert(s@.take(i + 1).last() == s@[i as int]);
        }
        let wide: u64 = acc as u64 * 10 + (b - 48) as u64;
        if wide > u32::MAX as u64 {
            proof {
                if all_digits(s@) {
                    lemma_digits_val_prefix(s@, i + 1);
                }
            }
            return None;
        }
        acc = wide as u32;
        i += 1;
    }
    proof {
        assert(s@.take(n as int) =~= s@);
    }
    Some(acc)
}

/// The login response carries the bearer token optionally wrapped in double
/// quotes; a quoted token loses its first and last byte.
pub open spec fn unquote_spec(s: Seq<u8>) -> Seq<u8> {
    if s.len() >= 2 && s[0] == 34 {
        s.subrange(1, s.len() - 1)
    } else {
        s
    }
}

/// Strips one layer of double quotes from a token, if present.
pub fn unquote_token(s: &Vec<u8>) -> (r: Vec<u8>)
    ensures
        r@ == unquote_spec(s@),
{
    let n = s.len();
    if n >= 2 && s[0] == 34 {
        let mut r: Vec<u8> = Vec::new();
        let mut i: usize = 1;
        while i < n - 1
            invariant
                n == s@.len(),
                n >= 2,
                1 <= i <= n - 1,
                r@ == s@.subrange(1, i as int),
            decreases n - 1 - i,
        {
            r.push(s[i]);
            proof {
                assert(r@ =~= s@.subrange(1, i + 1));
            }
            i += 1;
        }
        r
    } else {
        copy_bytes(s)
    }
}

/// `s` cut at every line feed: the pieces in order, still untrimmed. An input
/// of k line feeds yields k + 1 pieces.
pub open spec fn line_pieces(s: Seq<u8>) -> Seq<Seq<u8>>
    decreases s.len(),
{
    if s.len() == 0 {
        seq![Seq::<u8>::empty()]
    } else if s.last() == 10 {
        line_pieces(s.drop_last()).push(Seq::empty())
    } else {
        let r = line_pieces(s.drop_last());
        r.update(r.len() - 1, r.last().push(s.last()))
    }
}

/// One trailing carriage return is dropped from a line.
pub open spec fn trim_cr(t: Seq<u8>) -> Seq<u8> {
    if t.len() > 0 && t.last() == 13 {
        t.drop_last()
    } else {
        t
    }
}

/// The lines of `s`: split at line feeds, one trailing carriage return
/// removed per line, and no final empty line when the input ends in a line
/// feed.
pub open spec fn split_lines_spec(s: Seq<u8>) -> Seq<Seq<u8>> {
    if s.len() == 0 {
        Seq::empty()
    } else if s.last() == 10 {
        line_pieces(s.drop_last()).map_values(|t: Seq<u8>| trim_cr(t))
    } else {
        line_pieces(s).map_values(|t: Seq<u8>| trim_cr(t))
    }
}

/// For byte vectors the deep view and the plain view agree.
pub proof fn lemma_bytes_deep_view(v: Vec<u8>)
    ensures
        v.deep_view() == v@,
{
    assert(v.deep_view() =~= v@);
}

/// Splits raw command output into lines.
pub fn split_lines(s: &[u8]) -> (r: Vec<Vec<u8>>)
    ensures
        r.deep_view() == split_lines_spec(s@),
{
    let n = s.len();
    let mut done: Vec<Vec<u8>> = Vec::new();
    let mut cur: Vec<u8> = Vec::new();
    let ghost mut raw: Seq<Seq<u8>> = Seq::empty();
    let mut i: usize = 0;
    while i < n
        invariant
            n == s@.len(),
            i <= n,
            line_pieces(s@.take(i as int)) == raw.push(cur@),
            done@.len() == raw.len(),
            forall|k: int| 0 <= k < raw.len() ==> (#[trigger] done@[k])@ == trim_cr(raw[k]),
        decreases n - i,
    {
        let b = s[i];
        proof {
            assert(s@.take(i + 1).drop_last() =~= s@.take(i as int));
            assert(s@.take(i + 1).last() == s@[i as int]);
        }
        if b == 10 {
            let ghost raw0 = raw;
            let ghost cur0 = cur@;
            if cur.len() > 0 && cur[cur.len() - 1] == 13 {
                cur.pop();
            }
            assert(cur@ == trim_cr(cur0));
            done.push(cur);
            cur = Vec::new();
            proof {
                raw = raw0.push(cur0);
                assert(line_pieces(s@.take(i + 1)) =~= raw.push(cur@));
            }
        } else {
            let ghost cur0 = cur@;
            cur.push(b);
            proof {
                let prev = raw.push(cur0);
                assert(line_pieces(s@.take(i + 1)) =~= prev.update(
                    prev.len() - 1,
                    prev.last().push(s@[i as int]),
                ));
                assert(prev.update(prev.len() - 1, prev.last().push(s@[i as int])) =~= raw.push(
                    cur@,
                ));
            }
        }
        i += 1;
    }
    proof {
        assert(s@.take(n as int) =~= s@);
    }
    if n == 0 {
        proof {
            assert(done.deep_view() =~= split_lines_spec(s@));
        }
        done
    } else if s[n - 1] == 10 {
        proof {
            let pieces = line_pieces(s@.drop_last());
            assert(line_pieces(s@) == pieces.push(Seq::empty()));
            assert(raw.push(cur@).last() == cur@);
            assert(pieces.push(Seq::<u8>::empty()).last() == Seq::<u8>::empty());
            assert(cur@ == Seq::<u8>::empty());
            assert(raw.len() == pieces.len());
            assert(forall|k: int|
                0 <= k < raw.len() ==> raw[k] == raw.push(cur@)[k] && pieces[k] == pieces.push(
                    Seq::<u8>::empty(),
                )[k]);
            assert(pieces =~= raw);
            assert forall|k: int| 0 <= k < done@.len() implies done.deep_view()[k]
                == split_lines_spec(s@)[k] by {
                lemma_bytes_deep_view(done@[k]);
                assert(done.deep_view()[k] == done@[k].deep_view());
                assert(split_lines_spec(s@)[k] == trim_cr(pieces[k]));
            }
            assert(done.deep_view() =~= split_lines_spec(s@));
        }
        done
    } else {
        let ghost raw0 = raw;
        let ghost cur0 = cur@;
        if cur.len() > 0 && cur[cur.len() - 1] == 13 {
            cur.pop();
        }
        assert(cur@ == trim_cr(cur0));
        done.push(cur);
        proof {
            raw = raw0.push(cur0);
            assert(line_pieces(s@) == raw);
            assert forall|k: int| 0 <= k < done@.len() implies done.deep_view()[k]
                == split_lines_spec(s@)[k] by {
                lemma_bytes_deep_view(done@[k]);
                assert(done.deep_view()[k] == done@[k].deep_view());
                assert(split_lines_spec(s@)[k] == trim_cr(raw[k]));
                assert((#[trigger] done@[k])@ == trim_cr(raw[k]));
            }
            assert(done.deep_view() =~= split_lines_spec(s@));
        }
        done
    }
}

} // verus!
