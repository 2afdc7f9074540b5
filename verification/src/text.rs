//! Byte-level scanning of kernel text files: line splitting, whitespace
//! tokenization, and decimal/hexadecimal number parsing.
//!
//! Everything kernel files expose is ASCII, so the model works on byte
//! sequences.  The specification functions `lines` and `tokens` define the
//! splitting the way the executable scanners perform it: a line ends at a
//! newline byte (one carriage return before it is dropped), a token is a
//! maximal run of non-whitespace bytes.

use vstd::prelude::*;

verus! {

/// ASCII whitespace, as a tokenizer over kernel text treats it.
pub open spec fn is_space(b: u8) -> bool {
    b == 32 || b == 9 || b == 10 || b == 13 || b == 11 || b == 12
}

/// ASCII decimal digit.
pub open spec fn is_digit(b: u8) -> bool {
    48 <= b <= 57
}

pub open spec fn all_digits(s: Seq<u8>) -> bool {
    forall|i: int| 0 <= i < s.len() ==> is_digit(#[trigger] s[i])
}

fn byte_is_space(b: u8) -> (r: bool)
    ensures
        r == is_space(b),
{
    b == 32 || b == 9 || b == 10 || b == 13 || b == 11 || b == 12
}

/// The views of a sequence of byte vectors.
pub open spec fn views_of(vs: Seq<Vec<u8>>) -> Seq<Seq<u8>> {
    vs.map_values(|v: Vec<u8>| v@)
}

// ---------------------------------------------------------------------------
// Lines
// ---------------------------------------------------------------------------

/// A carriage return just before the line feed is not part of the line.
pub open spec fn strip_cr(l: Seq<u8>) -> Seq<u8> {
    if l.len() > 0 && l.last() == 13 {
        l.drop_last()
    } else {
        l
    }
}

/// The lines of `s` from position `i` on, with `cur` the part of the current
/// line already seen.  A final line without a trailing newline still counts;
/// a trailing newline does not open an empty final line.
pub open spec fn lines_from(s: Seq<u8>, i: int, cur: Seq<u8>) -> Seq<Seq<u8>>
    decreases s.len() - i,
{
    if !(0 <= i < s.len()) {
        if cur.len() > 0 {
            seq![cur]
        } else {
            Seq::empty()
        }
    } else if s[i] == 10 {
        seq![strip_cr(cur)] + lines_from(s, i + 1, Seq::empty())
    } else {
        lines_from(s, i + 1, cur.push(s[i]))
    }
}

pub open spec fn lines(s: Seq<u8>) -> Seq<Seq<u8>> {
    lines_from(s, 0, Seq::empty())
}

/// Splits a file's content into its lines.
pub fn split_lines(s: &[u8]) -> (r: Vec<Vec<u8>>)
    ensures
        views_of(r@) == lines(s@),
{
    let mut r: Vec<Vec<u8>> = Vec::new();
    let mut cur: Vec<u8> = Vec::new();
    let mut i: usize = 0;
    while i < s.len()
        invariant
            i <= s@.len(),
            lines(s@) == views_of(r@) + lines_from(s@, i as int, cur@),
        decreases s@.len() - i,
    {
        let b = s[i];
        if b == 10 {
            let ghost prev = cur@;
            if cur.len() > 0 && cur[cur.len() - 1] == 13 {
                cur.pop();
            }
            proof {
                assert(cur@ == strip_cr(prev));
            }
            r.push(cur);
            cur = Vec::new();
            proof {
                assert(views_of(r@) =~= views_of(r@.drop_last()).push(strip_cr(prev)));
                assert(views_of(r@.drop_last()) + (seq![strip_cr(prev)] + lines_from(
                    s@,
                    i + 1,
                    Seq::empty(),
                )) =~= views_of(r@) + lines_from(s@, i + 1, cur@));
            }
        } else {
            cur.push(b);
        }
        i += 1;
    }
    if cur.len() > 0 {
        let ghost prev = cur@;
        r.push(cur);
        proof {
            assert(views_of(r@) =~= views_of(r@.drop_last()).push(prev));
            assert(views_of(r@.drop_last()) + seq![prev] =~= views_of(r@));
        }
        r
    } else {
        proof {
            assert(views_of(r@) + Seq::<Seq<u8>>::empty() =~= views_of(r@));
        }
        r
    }
}

// ---------------------------------------------------------------------------
// Tokens
// ---------------------------------------------------------------------------

/// The whitespace-separated tokens of `s` from position `i` on, with `cur`
/// the part of the current token already seen.
pub open spec fn tokens_from(s: Seq<u8>, i: int, cur: Seq<u8>) -> Seq<Seq<u8>>
    decreases s.len() - i,
{
    if !(0 <= i < s.len()) {
        if cur.len() > 0 {
            seq![cur]
        } else {
            Seq::empty()
        }
    } else if is_space(s[i]) {
        if cur.len() > 0 {
            seq![cur] + tokens_from(s, i + 1, Seq::empty())
        } else {
            tokens_from(s, i + 1, cur)
        }
    } else {
        tokens_from(s, i + 1, cur.push(s[i]))
    }
}

pub open spec fn tokens(s: Seq<u8>) -> Seq<Seq<u8>> {
    tokens_from(s, 0, Seq::empty())
}

/// Splits a line (or a whole file) into its whitespace-separated tokens.
pub fn tokenize(s: &[u8]) -> (r: Vec<Vec<u8>>)
    ensures
        views_of(r@) == tokens(s@),
{
    let mut r: Vec<Vec<u8>> = Vec::new();
    let mut cur: Vec<u8> = Vec::new();
    let mut i: usize = 0;
    while i < s.len()
        invariant
            i <= s@.len(),
            tokens(s@) == views_of(r@) + tokens_from(s@, i as int, cur@),
        decreases s@.len() - i,
    {
        let b = s[i];
        if byte_is_space(b) {
            if cur.len() > 0 {
                let ghost prev = cur@;
                r.push(cur);
                cur = Vec::new();
                proof {
                    assert(views_of(r@) =~= views_of(r@.drop_last()).push(prev));
                    assert(views_of(r@.drop_last()) + (seq![prev] + tokens_from(
                        s@,
                        i + 1,
                        Seq::empty(),
                    )) =~= views_of(r@) + tokens_from(s@, i + 1, cur@));
                }
            }
        } else {
            cur.push(b);
        }
        i += 1;
    }
    if cur.len() > 0 {
        let ghost prev = cur@;
        r.push(cur);
        proof {
            assert(views_of(r@) =~= views_of(r@.drop_last()).push(prev));
            assert(views_of(r@.drop_last()) + seq![prev] =~= views_of(r@));
        }
        r
    } else {
        proof {
            assert(views_of(r@) + Seq::<Seq<u8>>::empty() =~= views_of(r@));
        }
        r
    }
}

// ---------------------------------------------------------------------------
// Byte-slice comparisons
// ---------------------------------------------------------------------------

/// Whether `s` begins with the prefix `p`.
pub open spec fn has_prefix(s: Seq<u8>, p: Seq<u8>) -> bool {
    p.len() <= s.len() && s.subrange(0, p.len() as int) == p
}

pub fn bytes_eq(a: &[u8], b: &[u8]) -> (r: bool)
    ensures
        r == (a@ == b@),
{
    if a.len() != b.len() {
        proof {
            assert(a@ == b@ ==> a@.len() == b@.len());
        }
        return false;
    }
    let mut i: usize = 0;
    while i < a.len()
        invariant
            i <= a@.len(),
            a@.len() == b@.len(),
            forall|j: int| 0 <= j < i ==> a@[j] == b@[j],
        decreases a@.len() - i,
    {
        if a[i] != b[i] {
            return false;
        }
        i += 1;
    }
    proof {
        assert(a@ =~= b@);
    }
    true
}

pub fn starts_with(s: &[u8], p: &[u8]) -> (r: bool)
    ensures
        r == has_prefix(s@, p@),
{
    if p.len() > s.len() {
        return false;
    }
    let mut i: usize = 0;
    while i < p.len()
        invariant
            i <= p@.len(),
            p@.len() <= s@.len(),
            forall|j: int| 0 <= j < i ==> s@[j] == p@[j],
        decreases p@.len() - i,
    {
        if s[i] != p[i] {
            proof {
                assert(s@.subrange(0, p@.len() as int)[i as int] == s@[i as int]);
            }
            return false;
        }
        i += 1;
    }
    proof {
        assert(s@.subrange(0, p@.len() as int) =~= p@);
    }
    true
}

/// ASCII upper-case letters folded to lower case; other bytes unchanged.
pub open spec fn to_lower(b: u8) -> u8 {
    if 65 <= b <= 90 {
        (b + 32) as u8
    } else {
        b
    }
}

pub open spec fn seq_to_lower(s: Seq<u8>) -> Seq<u8> {
    s.map_values(|b: u8| to_lower(b))
}

pub fn bytes_eq_ignore_case(a: &[u8], b: &[u8]) -> (r: bool)
    ensures
        r == (seq_to_lower(a@) == seq_to_lower(b@)),
{
    if a.len() != b.len() {
        proof {
            assert(seq_to_lower(a@).len() == a@.len());
            assert(seq_to_lower(b@).len() == b@.len());
        }
        return false;
    }
    let mut i: usize = 0;
    while i < a.len()
        invariant
            i <= a@.len(),
            a@.len() == b@.len(),
            forall|j: int| 0 <= j < i ==> to_lower(a@[j]) == to_lower(b@[j]),
        decreases a@.len() - i,
    {
        let x = a[i];
        let y = b[i];
        let xl: u8 = if 65 <= x && x <= 90 {
            x + 32
        } else {
            x
        };
        let yl: u8 = if 65 <= y && y <= 90 {
            y + 32
        } else {
            y
        };
        if xl != yl {
            proof {
                assert(seq_to_lower(a@)[i as int] == to_lower(a@[i as int]));
                assert(seq_to_lower(b@)[i as int] == to_lower(b@[i as int]));
            }
            return false;
        }
        i += 1;
    }
    proof {
        assert(seq_to_lower(a@) =~= seq_to_lower(b@));
    }
    true
}

// ---------------------------------------------------------------------------
// Trimming
// ---------------------------------------------------------------------------

pub open spec fn trim_start(s: Seq<u8>) -> Seq<u8>
    decreases s.len(),
{
    if s.len() > 0 && is_space(s[0]) {
        trim_start(s.drop_first())
    } else {
        s
    }
}

pub open spec fn trim_end(s: Seq<u8>) -> Seq<u8>
    decreases s.len(),
{
    if s.len() > 0 && is_space(s.last()) {
        trim_end(s.drop_last())
    } else {
        s
    }
}

/// `s` with leading and trailing ASCII whitespace removed.
pub open spec fn trim(s: Seq<u8>) -> Seq<u8> {
    trim_end(trim_start(s))
}

/// The subslice of `s` without leading and trailing ASCII whitespace.
pub fn trim_slice(s: &[u8]) -> (r: &[u8])
    ensures
        r@ == trim(s@),
{
    proof {
        assert(s@.subrange(0, s@.len() as int) =~= s@);
    }
    let mut a: usize = 0;
    while a < s.len() && byte_is_space(s[a])
        invariant
            a <= s@.len(),
            trim_start(s@) == trim_start(s@.subrange(a as int, s@.len() as int)),
        decreases s@.len() - a,
    {
        proof {
            assert(s@.subrange(a as int, s@.len() as int).drop_first() =~= s@.subrange(
                a + 1,
                s@.len() as int,
            ));
        }
        a += 1;
    }
    proof {
        assert(trim_start(s@) == s@.subrange(a as int, s@.len() as int));
    }
    let mut b: usize = s.len();
    while b > a && byte_is_space(s[b - 1])
        invariant
            a <= b <= s@.len(),
            trim_start(s@) == s@.subrange(a as int, s@.len() as int),
            trim_end(s@.subrange(a as int, s@.len() as int)) == trim_end(
                s@.subrange(a as int, b as int),
            ),
        decreases b,
    {
        proof {
            assert(s@.subrange(a as int, b as int).drop_last() =~= s@.subrange(
                a as int,
                b - 1,
            ));
        }
        b -= 1;
    }
    proof {
        assert(trim_end(s@.subrange(a as int, b as int)) == s@.subrange(a as int, b as int));
    }
    &s[a..b]
}

/// `s` with every trailing occurrence of the byte `b` removed.
pub open spec fn strip_trailing(s: Seq<u8>, b: u8) -> Seq<u8>
    decreases s.len(),
{
    if s.len() > 0 && s.last() == b {
        strip_trailing(s.drop_last(), b)
    } else {
        s
    }
}

/// The subslice of `s` without trailing occurrences of `b`.
pub fn strip_trailing_slice(s: &[u8], b: u8) -> (r: &[u8])
    ensures
        r@ == strip_trailing(s@, b),
{
    proof {
        assert(s@.subrange(0, s@.len() as int) =~= s@);
    }
    let mut e: usize = s.len();
    while e > 0 && s[e - 1] == b
        invariant
            e <= s@.len(),
            strip_trailing(s@, b) == strip_trailing(s@.subrange(0, e as int), b),
        decreases e,
    {
        proof {
            assert(s@.subrange(0, e as int).drop_last() =~= s@.subrange(0, e - 1));
        }
        e -= 1;
    }
    proof {
        assert(strip_trailing(s@.subrange(0, e as int), b) == s@.subrange(0, e as int));
    }
    &s[0..e]
}

// ---------------------------------------------------------------------------
// Decimal numbers
// ---------------------------------------------------------------------------

/// The numeric value of a digit byte (0 for anything else).
pub open spec fn digit_val(b: u8) -> nat {
    if is_digit(b) {
        (b - 48) as nat
    } else {
        0
    }
}

/// The value of a string of decimal digits.
pub open spec fn dec_val(s: Seq<u8>) -> nat
    decreases s.len(),
{
    if s.len() == 0 {
        0
    } else {
        dec_val(s.drop_last()) * 10 + digit_val(s.last())
    }
}

/// What parsing an unsigned decimal returns: the value, if `s` is a non-empty
/// string of digits whose value fits in a `u64`.
pub open spec fn parse_u64(s: Seq<u8>) -> Option<u64> {
    if s.len() > 0 && all_digits(s) && dec_val(s) <= u64::MAX {
        Some(dec_val(s) as u64)
    } else {
        None
    }
}

proof fn lemma_dec_val_push(s: Seq<u8>, b: u8)
    ensures
        dec_val(s.push(b)) == dec_val(s) * 10 + digit_val(b),
{
    assert(s.push(b).drop_last() =~= s);
}

proof fn lemma_dec_val_prefix_le(s: Seq<u8>, i: int)
    requires
        0 <= i <= s.len(),
    ensures
        dec_val(s.subrange(0, i)) <= dec_val(s),
    decreases s.len() - i,
{
    if i < s.len() {
        assert(s.subrange(0, i + 1) =~= s.subrange(0, i).push(s[i]));
        lemma_dec_val_push(s.subrange(0, i), s[i]);
        lemma_dec_val_prefix_le(s, i + 1);
    } else {
        assert(s.subrange(0, i) =~= s);
    }
}

/// Parses a non-empty string of decimal digits as a `u64`.
pub fn parse_u64_bytes(s: &[u8]) -> (r: Option<u64>)
    ensures
        r == parse_u64(s@),
{
    if s.len() == 0 {
        return None;
    }
    let mut acc: u64 = 0;
    let mut i: usize = 0;
    while i < s.len()
        invariant
            0 < s@.len(),
            i <= s@.len(),
            all_digits(s@.subrange(0, i as int)),
            acc == dec_val(s@.subrange(0, i as int)),
        decreases s@.len() - i,
    {
        let b = s[i];
        if !(48 <= b && b <= 57) {
            proof {
                assert(!is_digit(s@[i as int]));
            }
            return None;
        }
        proof {
            assert(s@.subrange(0, i + 1) =~= s@.subrange(0, i as int).push(s@[i as int]));
            lemma_dec_val_push(s@.subrange(0, i as int), s@[i as int]);
        }
        let step = match acc.checked_mul(10) {
            Some(m) => m.checked_add((b - 48) as u64),
            None => None,
        };
        match step {
            Some(v) => {
                acc = v;
            },
            None => {
                proof {
                    lemma_dec_val_prefix_le(s@, i + 1);
                }
                return None;
            },
        }
        i += 1;
    }
    proof {
        assert(s@.subrange(0, s@.len() as int) =~= s@);
    }
    Some(acc)
}

// ---------------------------------------------------------------------------
// Hexadecimal numbers
// ---------------------------------------------------------------------------

pub open spec fn is_hex_digit(b: u8) -> bool {
    is_digit(b) || (97 <= b <= 102) || (65 <= b <= 70)
}

pub open spec fn all_hex_digits(s: Seq<u8>) -> bool {
    forall|i: int| 0 <= i < s.len() ==> is_hex_digit(#[trigger] s[i])
}

pub open spec fn hex_digit_val(b: u8) -> nat {
    if is_digit(b) {
        (b - 48) as nat
    } else if 97 <= b <= 102 {
        (b - 87) as nat
    } else if 65 <= b <= 70 {
        (b - 55) as nat
    } else {
        0
    }
}

/// The value of a string of hexadecimal digits.
pub open spec fn hex_val(s: Seq<u8>) -> nat
    decreases s.len(),
{
    if s.len() == 0 {
        0
    } else {
        hex_val(s.drop_last()) * 16 + hex_digit_val(s.last())
    }
}

/// What parsing a hexadecimal byte returns: the value, if `s` is a non-empty
/// string of hexadecimal digits whose value fits in a `u8`.
pub open spec fn parse_hex_u8(s: Seq<u8>) -> Option<u8> {
    if s.len() > 0 && all_hex_digits(s) && hex_val(s) <= u8::MAX {
        Some(hex_val(s) as u8)
    } else {
        None
    }
}

proof fn lemma_hex_val_push(s: Seq<u8>, b: u8)
    ensures
        hex_val(s.push(b)) == hex_val(s) * 16 + hex_digit_val(b),
{
    assert(s.push(b).drop_last() =~= s);
}

proof fn lemma_hex_val_prefix_le(s: Seq<u8>, i: int)
    requires
        0 <= i <= s.len(),
    ensures
        hex_val(s.subrange(0, i)) <= hex_val(s),
    decreases s.len() - i,
{
    if i < s.len() {
        assert(s.subrange(0, i + 1) =~= s.subrange(0, i).push(s[i]));
        lemma_hex_val_push(s.subrange(0, i), s[i]);
        lemma_hex_val_prefix_le(s, i + 1);
    } else {
        assert(s.subrange(0, i) =~= s);
    }
}

/// Parses a non-empty string of hexadecimal digits as a `u8`, the way the
/// socket-table state column is encoded.
pub fn parse_hex_u8_bytes(s: &[u8]) -> (r: Option<u8>)
    ensures
        r == parse_hex_u8(s@),
{
    if s.len() == 0 {
        return None;
    }
    let mut acc: u16 = 0;
    let mut i: usize = 0;
    while i < s.len()
        invariant
            0 < s@.len(),
            i <= s@.len(),
            all_hex_digits(s@.subrange(0, i as int)),
            acc == hex_val(s@.subrange(0, i as int)),
            acc <= 255,
        decreases s@.len() - i,
    {
        let b = s[i];
        let d: u16 = if 48 <= b && b <= 57 {
            (b - 48) as u16
        } else if 97 <= b && b <= 102 {
            (b - 87) as u16
        } else if 65 <= b && b <= 70 {
            (b - 55) as u16
        } else {
            proof {
                assert(!is_hex_digit(s@[i as int]));
            }
            return None;
        };
        proof {
            assert(s@.subrange(0, i + 1) =~= s@.subrange(0, i as int).push(s@[i as int]));
            lemma_hex_val_push(s@.subrange(0, i as int), s@[i as int]);
        }
        let v: u16 = acc * 16 + d;
        if v > 255 {
            proof {
                lemma_hex_val_prefix_le(s@, i + 1);
            }
            return None;
        }
        acc = v;
        i += 1;
    }
    proof {
        assert(s@.subrange(0, s@.len() as int) =~= s@);
    }
    Some(acc as u8)
}

// ---------------------------------------------------------------------------
// Key/value lines
// ---------------------------------------------------------------------------

/// Whether the first token of a line is `key`; a blank line matches nothing.
pub open spec fn line_matches(l: Seq<u8>, key: Seq<u8>) -> bool {
    tokens(l).len() > 0 && tokens(l)[0] == key
}

/// The value of a key/value line: its second token read as a decimal, with 0
/// both for a missing second token and for one that is not a number.
pub open spec fn line_val_or_zero(l: Seq<u8>) -> u64 {
    if tokens(l).len() > 1 {
        match parse_u64(tokens(l)[1]) {
            Some(v) => v,
            None => 0,
        }
    } else {
        0
    }
}

/// The value of the last line whose key is `key`, if any line has it.
pub open spec fn kv_last(ls: Seq<Seq<u8>>, key: Seq<u8>) -> Option<u64>
    decreases ls.len(),
{
    if ls.len() == 0 {
        None
    } else if line_matches(ls.last(), key) {
        Some(line_val_or_zero(ls.last()))
    } else {
        kv_last(ls.drop_last(), key)
    }
}

/// A line whose key is not `key` — malformed or not — never changes what
/// `key` reads from the file.
pub proof fn lemma_kv_other_line_no_effect(ls: Seq<Seq<u8>>, l: Seq<u8>, key: Seq<u8>)
    requires
        !line_matches(l, key),
    ensures
        kv_last(ls.push(l), key) == kv_last(ls, key),
{
    assert(ls.push(l).drop_last() =~= ls);
}

fn line_value_or_zero(toks: &Vec<Vec<u8>>, Ghost(l): Ghost<Seq<u8>>) -> (r: u64)
    requires
        views_of(toks@) == tokens(l),
    ensures
        r == line_val_or_zero(l),
{
    if toks.len() > 1 {
        proof {
            assert(views_of(toks@)[1] == toks@[1]@);
        }
        match parse_u64_bytes(toks[1].as_slice()) {
            Some(v) => v,
            None => 0,
        }
    } else {
        0
    }
}

/// Scans whitespace key/value lines for `key` and returns the value of its
/// last occurrence.  A malformed or missing value on a matching line reads as
/// 0; lines with other keys, malformed or not, are ignored.
pub fn scan_kv(text: &[u8], key: &[u8]) -> (r: Option<u64>)
    ensures
        r == kv_last(lines(text@), key@),
{
    let ls = split_lines(text);
    let mut r: Option<u64> = None;
    let mut i: usize = 0;
    proof {
        assert(lines(text@).subrange(0, 0) =~= Seq::<Seq<u8>>::empty());
    }
    while i < ls.len()
        invariant
            i <= ls@.len(),
            views_of(ls@) == lines(text@),
            r == kv_last(lines(text@).subrange(0, i as int), key@),
        decreases ls@.len() - i,
    {
        let ghost l = lines(text@)[i as int];
        proof {
            assert(views_of(ls@)[i as int] == ls@[i as int]@);
        }
        let toks = tokenize(ls[i].as_slice());
        proof {
            if toks@.len() > 0 {
                assert(views_of(toks@)[0] == toks@[0]@);
            }
        }
        if toks.len() > 0 && bytes_eq(toks[0].as_slice(), key) {
            let v = line_value_or_zero(&toks, Ghost(l));
            r = Some(v);
        }
        proof {
            let pre = lines(text@).subrange(0, i as int);
            let post = lines(text@).subrange(0, i + 1);
            assert(post.drop_last() =~= pre);
            assert(post.last() == l);
        }
        i += 1;
    }
    proof {
        assert(lines(text@).subrange(0, lines(text@).len() as int) =~= lines(text@));
    }
    r
}

/// Token `k` of `s` read as a number, 0 when it is not one.
pub open spec fn token_u64_or_zero(s: Seq<u8>, k: int) -> u64 {
    match parse_u64(tokens(s)[k]) {
        Some(v) => v,
        None => 0,
    }
}

/// The first line that begins with `p`, if there is one.
pub open spec fn first_line_with_prefix(ls: Seq<Seq<u8>>, p: Seq<u8>) -> Option<Seq<u8>>
    decreases ls.len(),
{
    if ls.len() == 0 {
        None
    } else if has_prefix(ls.first(), p) {
        Some(ls.first())
    } else {
        first_line_with_prefix(ls.drop_first(), p)
    }
}

/// Finds the first line of `text` that begins with `p`.
pub fn find_line_with_prefix(text: &[u8], p: &[u8]) -> (r: Option<Vec<u8>>)
    ensures
        match r {
            Some(l) => first_line_with_prefix(lines(text@), p@) == Some(l@),
            None => first_line_with_prefix(lines(text@), p@) is None,
        },
{
    let mut ls = split_lines(text);
    let mut i: usize = 0;
    proof {
        assert(lines(text@).subrange(0, lines(text@).len() as int) =~= lines(text@));
    }
    while i < ls.len()
        invariant
            i <= ls@.len(),
            views_of(ls@) == lines(text@),
            first_line_with_prefix(lines(text@), p@) == first_line_with_prefix(
                lines(text@).subrange(i as int, lines(text@).len() as int),
                p@,
            ),
        decreases ls@.len() - i,
    {
        proof {
            assert(views_of(ls@)[i as int] == ls@[i as int]@);
            let rest = lines(text@).subrange(i as int, lines(text@).len() as int);
            assert(rest.first() == lines(text@)[i as int]);
            assert(rest.drop_first() =~= lines(text@).subrange(
                i + 1,
                lines(text@).len() as int,
            ));
        }
        if starts_with(ls[i].as_slice(), p) {
            let l = ls.swap_remove(i);
            return Some(l);
        }
        i += 1;
    }
    None
}

// ---------------------------------------------------------------------------
// Signed numbers
// ---------------------------------------------------------------------------

/// What parsing a signed decimal returns: an optional `-` or `+` sign
/// followed by digits, with the value in `i32` range.
pub open spec fn parse_i32(s: Seq<u8>) -> Option<i32> {
    if s.len() > 0 && s[0] == 45 {
        match parse_u64(s.drop_first()) {
            Some(m) => if m <= 0x8000_0000 {
                Some((0 - m as int) as i32)
            } else {
                None
            },
            None => None,
        }
    } else if s.len() > 0 && s[0] == 43 {
        match parse_u64(s.drop_first()) {
            Some(m) => if m <= i32::MAX {
                Some(m as i32)
            } else {
                None
            },
            None => None,
        }
    } else {
        match parse_u64(s) {
            Some(m) => if m <= i32::MAX {
                Some(m as i32)
            } else {
                None
            },
            None => None,
        }
    }
}

/// Parses a signed decimal integer, as a PID is written.
pub fn parse_i32_bytes(s: &[u8]) -> (r: Option<i32>)
    ensures
        r == parse_i32(s@),
{
    if s.len() > 0 && (s[0] == 45 || s[0] == 43) {
        let neg = s[0] == 45;
        let rest = &s[1..s.len()];
        proof {
            assert(rest@ =~= s@.drop_first());
        }
        match parse_u64_bytes(rest) {
            Some(m) => {
                if neg {
                    if m <= 0x8000_0000 {
                        Some((-(m as i64)) as i32)
                    } else {
                        None
                    }
                } else {
                    if m <= i32::MAX as u64 {
                        Some(m as i32)
                    } else {
                        None
                    }
                }
            },
            None => None,
        }
    } else {
        match parse_u64_bytes(s) {
            Some(m) => {
                if m <= i32::MAX as u64 {
                    Some(m as i32)
                } else {
                    None
                }
            },
            None => None,
        }
    }
}

} // verus!
