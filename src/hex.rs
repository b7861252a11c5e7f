use vstd::prelude::*;

verus! {

/// A byte that separates tokens: space, tab, line feed, vertical tab, form
/// feed or carriage return.
pub open spec fn is_separator(c: u8) -> bool {
    c == 32 || (9 <= c <= 13)
}

/// The sign a token may start with.
pub const PLUS: u8 = 43;

/// The given token of a line could not be read as a hexadecimal byte.
#[derive(Debug, Clone, Copy, PartialEq, Eq, Structural)]
pub struct HexDecodeError {
    /// Index of the first token, counted from 0, that is not a byte.
    pub token: usize,
}

/// An ASCII hexadecimal digit, either case.
pub open spec fn is_hex_digit(c: u8) -> bool {
    (48 <= c <= 57) || (97 <= c <= 102) || (65 <= c <= 70)
}

/// The value of an ASCII hexadecimal digit, either case.
pub open spec fn hex_digit_value(c: u8) -> int {
    if 48 <= c <= 57 {
        c - 48
    } else if 97 <= c <= 102 {
        c - 87
    } else {
        c - 55
    }
}

/// The number that a string of hexadecimal digits writes, most significant first.
pub open spec fn digits_value(d: Seq<u8>) -> int
    decreases d.len(),
{
    if d.len() == 0 {
        0
    } else {
        digits_value(d.drop_last()) * 16 + hex_digit_value(d.last())
    }
}

/// The digits of a token: what follows an optional leading `+`.
pub open spec fn token_digits(t: Seq<u8>) -> Seq<u8> {
    if t.len() > 0 && t[0] == PLUS {
        t.drop_first()
    } else {
        t
    }
}

/// The byte a token writes in hexadecimal: an optional `+`, then one or more
/// digits whose value is at most 255. Nothing else is a byte.
pub open spec fn token_value(t: Seq<u8>) -> Option<u8> {
    let d = token_digits(t);
    if d.len() > 0 && (forall|j: int| 0 <= j < d.len() ==> is_hex_digit(#[trigger] d[j]))
        && digits_value(d) <= 255 {
        Some(digits_value(d) as u8)
    } else {
        None
    }
}

/// The tokens of `s`: its maximal runs of bytes that are not separators, in
/// order. A line that is empty or holds only separators has no tokens.
pub open spec fn tokens_of(s: Seq<u8>) -> Seq<Seq<u8>>
    decreases s.len(),
{
    if s.len() == 0 {
        Seq::empty()
    } else {
        let t = tokens_of(s.drop_last());
        if is_separator(s.last()) {
            t
        } else if s.len() >= 2 && !is_separator(s[s.len() - 2]) {
            t.update(t.len() - 1, t.last().push(s.last()))
        } else {
            t.push(seq![s.last()])
        }
    }
}

/// Every token of `s` is a byte.
pub open spec fn all_tokens_valid(s: Seq<u8>) -> bool {
    forall|k: int|
        0 <= k < tokens_of(s).len() ==> (#[trigger] token_value(tokens_of(s)[k])) is Some
}

/// The index of the first token of `s` that is not a byte.
pub open spec fn first_invalid_token(s: Seq<u8>) -> int {
    choose|k: int|
        0 <= k < tokens_of(s).len() && token_value(tokens_of(s)[k]) is None && (forall|j: int|
            0 <= j < k ==> (#[trigger] token_value(tokens_of(s)[j])) is Some)
}

/// What a line of whitespace-separated hexadecimal bytes decodes to: every
/// byte in order (none for a blank line), or the index of the first token
/// that is not a byte.
pub open spec fn decode_hex_line(s: Seq<u8>) -> Result<Seq<u8>, HexDecodeError> {
    if all_tokens_valid(s) {
        Ok(tokens_of(s).map_values(|t: Seq<u8>| token_value(t)->0))
    } else {
        Err(HexDecodeError { token: first_invalid_token(s) as usize })
    }
}

/// After a byte that is not a separator, the line has at least one token.
proof fn lemma_split_after_word(s: Seq<u8>)
    requires
        s.len() > 0,
        !is_separator(s.last()),
    ensures
        tokens_of(s).len() >= 1,
    decreases s.len(),
{
    if s.len() >= 2 && !is_separator(s[s.len() - 2]) {
        assert(s.drop_last().last() == s[s.len() - 2]);
        lemma_split_after_word(s.drop_last());
    }
}

proof fn lemma_digits_step(d: Seq<u8>, n: int)
    requires
        0 <= n < d.len(),
    ensures
        digits_value(d.take(n + 1)) == digits_value(d.take(n)) * 16 + hex_digit_value(d[n]),
{
    assert(d.take(n + 1).drop_last() =~= d.take(n));
}

/// The value of one hexadecimal digit, if `c` is one.
fn hex_digit(c: u8) -> (r: Option<u32>)
    ensures
        is_hex_digit(c) ==> r == Some(hex_digit_value(c) as u32),
        !is_hex_digit(c) ==> r is None,
{
    if 48 <= c && c <= 57 {
        Some((c - 48) as u32)
    } else if 97 <= c && c <= 102 {
        Some((c - 87) as u32)
    } else if 65 <= c && c <= 70 {
        Some((c - 55) as u32)
    } else {
        None
    }
}

/// Reads one token as a hexadecimal byte.
fn parse_token(t: &Vec<u8>) -> (r: Option<u8>)
    ensures
        r == token_value(t@),
{
    let mut j: usize = 0;
    if t.len() > 0 && t[0] == PLUS {
        j = 1;
    }
    let start = j;
    let ghost d = token_digits(t@);
    assert(d =~= t@.subrange(start as int, t@.len() as int));
    if start == t.len() {
        return None;
    }
    // the value of the digits read so far, held at 256 once it passes 255
    let mut acc: u32 = 0;
    assert(d.take(0) =~= Seq::<u8>::empty());
    while j < t.len()
        invariant
            start <= j <= t.len(),
            start < t.len(),
            d == t@.subrange(start as int, t@.len() as int),
            d == token_digits(t@),
            forall|m: int| 0 <= m < j - start ==> is_hex_digit(#[trigger] d[m]),
            digits_value(d.take(j - start)) >= 0,
            acc <= 256,
            acc < 256 ==> acc == digits_value(d.take(j - start)),
            acc == 256 ==> digits_value(d.take(j - start)) > 255,
        decreases t.len() - j,
    {
        let c = t[j];
        let v = match hex_digit(c) {
            None => {
                assert(!is_hex_digit(d[j - start]));
                return None;
            },
            Some(v) => v,
        };
        proof {
            lemma_digits_step(d, j - start);
        }
        let next = acc * 16 + v;
        acc = if next > 256 {
            256
        } else {
            next
        };
        j += 1;
    }
    assert(d.take(j - start) =~= d);
    if acc <= 255 {
        Some(acc as u8)
    } else {
        None
    }
}

/// Splits the bytes into tokens, as `tokens_of` does.
fn split_tokens(b: &[u8]) -> (r: Vec<Vec<u8>>)
    ensures
        r@.len() == tokens_of(b@).len(),
        forall|k: int| 0 <= k < r@.len() ==> (#[trigger] r@[k])@ == tokens_of(b@)[k],
{
    let mut tokens: Vec<Vec<u8>> = Vec::new();
    let mut cur: Vec<u8> = Vec::new();
    // whether the last byte read belongs to the token in `cur`
    let mut in_word = false;
    let mut i: usize = 0;
    assert(b@.take(0) =~= Seq::<u8>::empty());
    while i < b.len()
        invariant
            i <= b.len(),
            in_word == (i > 0 && !is_separator(b@[i - 1])),
            tokens@.len() + (if in_word { 1int } else { 0 }) == tokens_of(b@.take(i as int)).len(),
            forall|k: int|
                0 <= k < tokens@.len() ==> (#[trigger] tokens@[k])@ == tokens_of(
                    b@.take(i as int),
                )[k],
            in_word ==> cur@ == tokens_of(b@.take(i as int)).last(),
            !in_word ==> cur@.len() == 0,
        decreases b.len() - i,
    {
        let ghost prev = b@.take(i as int);
        let ghost next = b@.take(i + 1);
        assert(next.drop_last() =~= prev);
        if i > 0 {
            assert(next[next.len() - 2] == b@[i - 1]);
        }
        let c = b[i];
        if c == 32 || (9 <= c && c <= 13) {
            if in_word {
                tokens.push(cur);
                cur = Vec::new();
            }
            in_word = false;
        } else {
            if in_word {
                proof {
                    lemma_split_after_word(prev);
                }
            }
            cur.push(c);
            in_word = true;
            assert(cur@ =~= tokens_of(next).last());
        }
        i += 1;
    }
    assert(b@.take(i as int) =~= b@);
    if in_word {
        tokens.push(cur);
    }
    tokens
}

/// Decodes a line of whitespace-separated hexadecimal bytes.
pub fn decode_hex(b: &[u8]) -> (r: Result<Vec<u8>, HexDecodeError>)
    ensures
        match decode_hex_line(b@) {
            Ok(bytes) => r is Ok && r->Ok_0@ == bytes,
            Err(e) => r == Err::<Vec<u8>, HexDecodeError>(e),
        },
{
    let tokens = split_tokens(b);
    let ghost split = tokens_of(b@);
    let mut out: Vec<u8> = Vec::new();
    let mut k: usize = 0;
    while k < tokens.len()
        invariant
            k <= tokens@.len(),
            tokens@.len() == split.len(),
            split == tokens_of(b@),
            forall|m: int| 0 <= m < tokens@.len() ==> (#[trigger] tokens@[m])@ == split[m],
            out@.len() == k,
            forall|m: int| 0 <= m < k ==> token_value(#[trigger] split[m]) == Some(out@[m]),
        decreases tokens.len() - k,
    {
        match parse_token(&tokens[k]) {
            None => {
                proof {
                    let p = |j: int| 0 <= j < split.len() && token_value(split[j]) is None
                        && (forall|i: int| 0 <= i < j ==> (#[trigger] token_value(split[i])) is Some);
                    assert(p(k as int));
                    let c = first_invalid_token(b@);
                    assert(p(c));
                    if c < k {
                        assert(token_value(split[c]) is Some);
                    }
                    if c > k {
                        assert(token_value(split[k as int]) is Some);
                    }
                }
                return Err(HexDecodeError { token: k });
            },
            Some(v) => {
                out.push(v);
            },
        }
        k += 1;
    }
    assert(all_tokens_valid(b@));
    assert(out@ =~= split.map_values(|t: Seq<u8>| token_value(t)->0));
    Ok(out)
}

} // verus!
