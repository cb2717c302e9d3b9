//! Character-level layer of the durable session format.
//!
//! A file is a stream of tokens, each either an unsigned number
//! (`u<digits>;`) or a length-prefixed string (`s<count>:<chars>`).
//! The grammar is prefix-unambiguous, which is what makes the
//! round-trip proof for the whole format go through.
use vstd::prelude::*;

use crate::errors::CoreError;

verus! {

/// One token of the durable format: a number or a string.
#[derive(Clone, Debug)]
pub enum Token {
    U(u64),
    S(String),
}

/// The mathematical value of a token.
pub enum TokenV {
    U(u64),
    S(Seq<char>),
}

impl View for Token {
    type V = TokenV;

    open spec fn view(&self) -> TokenV {
        match self {
            Token::U(n) => TokenV::U(*n),
            Token::S(s) => TokenV::S(s@),
        }
    }
}

/// The values of a token sequence.
pub open spec fn toks_view(v: Seq<Token>) -> Seq<TokenV> {
    v.map_values(|t: Token| t@)
}

/// A string token must carry a length that fits the count prefix.
pub open spec fn tok_wf(t: TokenV) -> bool {
    match t {
        TokenV::U(_) => true,
        TokenV::S(s) => s.len() <= u64::MAX,
    }
}

pub open spec fn toks_wf(ts: Seq<TokenV>) -> bool {
    forall|i: int| 0 <= i < ts.len() ==> tok_wf(#[trigger] ts[i])
}

// ---------------------------------------------------------------------------
// Decimal digits
// ---------------------------------------------------------------------------

pub open spec fn digit_char(d: nat) -> char {
    if d == 0 { '0' }
    else if d == 1 { '1' }
    else if d == 2 { '2' }
    else if d == 3 { '3' }
    else if d == 4 { '4' }
    else if d == 5 { '5' }
    else if d == 6 { '6' }
    else if d == 7 { '7' }
    else if d == 8 { '8' }
    else { '9' }
}

pub open spec fn is_dec_digit(c: char) -> bool {
    c == '0' || c == '1' || c == '2' || c == '3' || c == '4'
    || c == '5' || c == '6' || c == '7' || c == '8' || c == '9'
}

pub open spec fn digit_val(c: char) -> nat {
    if c == '0' { 0 }
    else if c == '1' { 1 }
    else if c == '2' { 2 }
    else if c == '3' { 3 }
    else if c == '4' { 4 }
    else if c == '5' { 5 }
    else if c == '6' { 6 }
    else if c == '7' { 7 }
    else if c == '8' { 8 }
    else { 9 }
}

/// The decimal digits of `n`, most significant first, no leading zeros.
pub open spec fn dec_digits(n: nat) -> Seq<char>
    decreases n,
{
    if n < 10 {
        seq![digit_char(n)]
    } else {
        dec_digits(n / 10).push(digit_char(n % 10))
    }
}

/// The number denoted by a digit string.
pub open spec fn dec_val(s: Seq<char>) -> nat
    decreases s.len(),
{
    if s.len() == 0 {
        0
    } else {
        dec_val(s.drop_last()) * 10 + digit_val(s.last())
    }
}

pub open spec fn all_digits(s: Seq<char>) -> bool {
    forall|i: int| 0 <= i < s.len() ==> is_dec_digit(#[trigger] s[i])
}

pub proof fn lemma_dec_digits_shape(n: nat)
    ensures
        dec_digits(n).len() >= 1,
        all_digits(dec_digits(n)),
    decreases n,
{
    if n < 10 {
        assert(is_dec_digit(digit_char(n)));
    } else {
        lemma_dec_digits_shape(n / 10);
        assert(is_dec_digit(digit_char(n % 10)));
        assert forall|i: int| 0 <= i < dec_digits(n).len() implies is_dec_digit(
            #[trigger] dec_digits(n)[i],
        ) by {
            if i < dec_digits(n / 10).len() {
                assert(dec_digits(n)[i] == dec_digits(n / 10)[i]);
            }
        }
    }
}

/// Printing then reading a number gives the number back.
pub proof fn lemma_dec_val_of_digits(n: nat)
    ensures
        dec_val(dec_digits(n)) == n,
    decreases n,
{
    if n < 10 {
        let s = dec_digits(n);
        assert(s.drop_last() =~= Seq::<char>::empty());
        assert(s.last() == digit_char(n));
        assert(dec_val(Seq::<char>::empty()) == 0);
        assert(digit_val(digit_char(n)) == n);
    } else {
        lemma_dec_val_of_digits(n / 10);
        let s = dec_digits(n);
        assert(s.drop_last() =~= dec_digits(n / 10));
        assert(digit_val(digit_char(n % 10)) == n % 10);
        assert(n / 10 * 10 + n % 10 == n) by {
            vstd::arithmetic::div_mod::lemma_fundamental_div_mod(n as int, 10);
        }
    }
}

/// Distinct numbers print as distinct digit strings.
pub proof fn lemma_dec_digits_injective(a: nat, b: nat)
    requires
        dec_digits(a) == dec_digits(b),
    ensures
        a == b,
{
    lemma_dec_val_of_digits(a);
    lemma_dec_val_of_digits(b);
}

/// Appending digits never shrinks the denoted value.
pub proof fn lemma_dec_val_prefix_le(s: Seq<char>, m: int)
    requires
        0 <= m <= s.len(),
    ensures
        dec_val(s.take(m)) <= dec_val(s),
    decreases s.len() - m,
{
    if m == s.len() {
        assert(s.take(m) =~= s);
    } else {
        lemma_dec_val_prefix_le(s.drop_last(), m);
        assert(s.drop_last().take(m) =~= s.take(m));
        assert(dec_val(s) == dec_val(s.drop_last()) * 10 + digit_val(s.last()));
        assert(dec_val(s.drop_last()) * 10 >= dec_val(s.drop_last())) by {
            assert(dec_val(s.drop_last()) * 10 - dec_val(s.drop_last()) == dec_val(
                s.drop_last(),
            ) * 9) by (nonlinear_arith);
        }
    }
}

// ---------------------------------------------------------------------------
// The token grammar over characters
// ---------------------------------------------------------------------------

/// The length of the maximal digit prefix of `s`.
pub open spec fn take_digits(s: Seq<char>) -> int
    decreases s.len(),
{
    if s.len() == 0 || !is_dec_digit(s[0]) {
        0
    } else {
        1 + take_digits(s.drop_first())
    }
}

pub proof fn lemma_take_digits_bounds(s: Seq<char>)
    ensures
        0 <= take_digits(s) <= s.len(),
        all_digits(s.take(take_digits(s))),
        take_digits(s) < s.len() ==> !is_dec_digit(s[take_digits(s)]),
    decreases s.len(),
{
    if s.len() == 0 || !is_dec_digit(s[0]) {
    } else {
        lemma_take_digits_bounds(s.drop_first());
        let k = take_digits(s);
        let r = s.drop_first();
        assert(r.take(k - 1) =~= s.take(k).drop_first());
        assert forall|i: int| 0 <= i < k implies is_dec_digit(#[trigger] s.take(k)[i]) by {
            if i > 0 {
                assert(s.take(k)[i] == r.take(k - 1)[i - 1]);
            }
        }
        if k < s.len() {
            assert(s[k] == r[k - 1]);
        }
    }
}

/// A digit run followed by a non-digit scans as exactly the run.
pub proof fn lemma_take_digits_concat(a: Seq<char>, b: Seq<char>)
    requires
        all_digits(a),
        b.len() > 0,
        !is_dec_digit(b[0]),
    ensures
        take_digits(a + b) == a.len(),
    decreases a.len(),
{
    if a.len() == 0 {
        assert(a + b =~= b);
    } else {
        assert(is_dec_digit(a[0]));
        assert((a + b)[0] == a[0]);
        lemma_take_digits_concat(a.drop_first(), b);
        assert((a + b).drop_first() =~= a.drop_first() + b);
    }
}

/// The character encoding of one token.
pub open spec fn tok_chars(t: TokenV) -> Seq<char> {
    match t {
        TokenV::U(n) => seq!['u'] + dec_digits(n as nat) + seq![';'],
        TokenV::S(s) => seq!['s'] + dec_digits(s.len()) + seq![':'] + s,
    }
}

/// The character encoding of a token stream.
pub open spec fn toks_chars(ts: Seq<TokenV>) -> Seq<char>
    decreases ts.len(),
{
    if ts.len() == 0 {
        Seq::empty()
    } else {
        tok_chars(ts[0]) + toks_chars(ts.drop_first())
    }
}

/// Reads one token from the front of `s`: the token and how many
/// characters it occupied, or nothing when `s` starts with no token.
pub open spec fn tok_decode_one(s: Seq<char>) -> Option<(TokenV, int)> {
    if s.len() == 0 {
        None
    } else if s[0] == 'u' {
        let r = s.drop_first();
        let k = take_digits(r);
        if k == 0 {
            None
        } else if dec_val(r.take(k)) > u64::MAX {
            None
        } else if k < r.len() && r[k] == ';' {
            Some((TokenV::U(dec_val(r.take(k)) as u64), 2 + k))
        } else {
            None
        }
    } else if s[0] == 's' {
        let r = s.drop_first();
        let k = take_digits(r);
        if k == 0 {
            None
        } else if dec_val(r.take(k)) > u64::MAX {
            None
        } else {
            let l = dec_val(r.take(k)) as int;
            if k < r.len() && r[k] == ':' && r.len() >= k + 1 + l {
                Some((TokenV::S(r.subrange(k + 1, k + 1 + l)), 2 + k + l))
            } else {
                None
            }
        }
    } else {
        None
    }
}

/// Reads a whole character sequence as a token stream.
pub open spec fn toks_decode(s: Seq<char>) -> Option<Seq<TokenV>>
    decreases s.len(),
{
    if s.len() == 0 {
        Some(Seq::empty())
    } else {
        match tok_decode_one(s) {
            None => None,
            Some((t, c)) => {
                if 1 <= c <= s.len() {
                    match toks_decode(s.skip(c)) {
                        None => None,
                        Some(rest) => Some(seq![t] + rest),
                    }
                } else {
                    None
                }
            },
        }
    }
}

/// Reading the encoding of one token consumes exactly that encoding.
pub proof fn lemma_tok_decode_one(t: TokenV, rest: Seq<char>)
    requires
        tok_wf(t),
    ensures
        tok_chars(t).len() >= 3,
        tok_decode_one(tok_chars(t) + rest) == Some((t, tok_chars(t).len() as int)),
{
    match t {
        TokenV::U(n) => {
            let d = dec_digits(n as nat);
            lemma_dec_digits_shape(n as nat);
            lemma_dec_val_of_digits(n as nat);
            let s = tok_chars(t) + rest;
            assert(s[0] == 'u');
            let r = s.drop_first();
            assert(r =~= d + (seq![';'] + rest));
            lemma_take_digits_concat(d, seq![';'] + rest);
            let k = take_digits(r);
            assert(k == d.len());
            assert(r.take(k) =~= d);
            assert(r[k] == ';');
            assert(tok_chars(t).len() == 2 + k);
        },
        TokenV::S(str) => {
            let d = dec_digits(str.len());
            lemma_dec_digits_shape(str.len());
            lemma_dec_val_of_digits(str.len());
            let s = tok_chars(t) + rest;
            assert(s[0] == 's');
            let r = s.drop_first();
            assert(r =~= d + (seq![':'] + (str + rest)));
            lemma_take_digits_concat(d, seq![':'] + (str + rest));
            let k = take_digits(r);
            assert(k == d.len());
            assert(r.take(k) =~= d);
            assert(r[k] == ':');
            let l = str.len() as int;
            assert(r.len() == k + 1 + l + rest.len());
            assert(r.subrange(k + 1, k + 1 + l) =~= str);
            assert(tok_chars(t).len() == 2 + k + l);
        },
    }
}

/// Reading the encoding of a token stream gives the stream back.
pub proof fn lemma_toks_decode_encode(ts: Seq<TokenV>)
    requires
        toks_wf(ts),
    ensures
        toks_decode(toks_chars(ts)) == Some(ts),
    decreases ts.len(),
{
    if ts.len() == 0 {
        assert(toks_chars(ts) =~= Seq::<char>::empty());
        assert(toks_decode(toks_chars(ts)) == Some(Seq::<TokenV>::empty()));
        assert(ts =~= Seq::<TokenV>::empty());
    } else {
        let t = ts[0];
        let rest = ts.drop_first();
        assert(tok_wf(t));
        assert(toks_wf(rest)) by {
            assert forall|i: int| 0 <= i < rest.len() implies tok_wf(#[trigger] rest[i]) by {
                assert(rest[i] == ts[i + 1]);
            }
        }
        lemma_tok_decode_one(t, toks_chars(rest));
        lemma_toks_decode_encode(rest);
        let s = toks_chars(ts);
        assert(s == tok_chars(t) + toks_chars(rest));
        let c = tok_chars(t).len() as int;
        assert(s.len() >= 3);
        assert(s.skip(c) =~= toks_chars(rest));
        assert(toks_decode(s) == Some(seq![t] + rest));
        assert(seq![t] + rest =~= ts);
    }
}

// ---------------------------------------------------------------------------
// Executable encoding
// ---------------------------------------------------------------------------

/// The decimal text of a digit below ten.
fn digit_str(d: u64) -> (r: &'static str)
    requires
        d < 10,
    ensures
        r@ == seq![digit_char(d as nat)],
{
    proof {
        reveal_strlit("0");
        reveal_strlit("1");
        reveal_strlit("2");
        reveal_strlit("3");
        reveal_strlit("4");
        reveal_strlit("5");
        reveal_strlit("6");
        reveal_strlit("7");
        reveal_strlit("8");
        reveal_strlit("9");
    }
    let r = match d {
        0 => "0",
        1 => "1",
        2 => "2",
        3 => "3",
        4 => "4",
        5 => "5",
        6 => "6",
        7 => "7",
        8 => "8",
        _ => "9",
    };
    proof {
        assert(r@ =~= seq![digit_char(d as nat)]);
    }
    r
}

/// Appends the decimal digits of `n`.
pub fn append_u64(out: &mut String, n: u64)
    ensures
        final(out)@ == old(out)@ + dec_digits(n as nat),
    decreases n,
{
    if n < 10 {
        out.append(digit_str(n));
    } else {
        append_u64(out, n / 10);
        out.append(digit_str(n % 10));
        proof {
            assert(out@ =~= old(out)@ + dec_digits(n as nat));
        }
    }
}

/// Appends the character encoding of one token.
pub fn append_token(out: &mut String, t: &Token)
    ensures
        final(out)@ == old(out)@ + tok_chars(t@),
{
    proof {
        reveal_strlit("u");
        reveal_strlit("s");
        reveal_strlit(";");
        reveal_strlit(":");
    }
    match t {
        Token::U(n) => {
            out.append("u");
            append_u64(out, *n);
            out.append(";");
            proof {
                assert(out@ =~= old(out)@ + tok_chars(t@));
            }
        },
        Token::S(s) => {
            out.append("s");
            let len = s.as_str().unicode_len();
            append_u64(out, len as u64);
            out.append(":");
            out.append(s.as_str());
            proof {
                assert(len as u64 as nat == s@.len());
                assert(out@ =~= old(out)@ + tok_chars(t@));
            }
        },
    }
}

/// Encodes a token stream as text.
pub fn encode_tokens(ts: &Vec<Token>) -> (out: String)
    ensures
        out@ == toks_chars(toks_view(ts@)),
{
    let mut out = String::new();
    let mut i: usize = 0;
    proof {
        assert(toks_chars(toks_view(ts@.take(0))) =~= Seq::<char>::empty());
    }
    while i < ts.len()
        invariant
            i <= ts.len(),
            out@ == toks_chars(toks_view(ts@.take(i as int))),
        decreases ts.len() - i,
    {
        append_token(&mut out, &ts[i]);
        proof {
            lemma_toks_chars_snoc(toks_view(ts@.take(i as int)), ts@[i as int]@);
            assert(toks_view(ts@.take(i + 1)) =~= toks_view(ts@.take(i as int)).push(
                ts@[i as int]@,
            ));
        }
        i = i + 1;
    }
    proof {
        assert(ts@.take(ts@.len() as int) =~= ts@);
    }
    out
}

/// Encoding distributes over appending one token at the end.
pub proof fn lemma_toks_chars_snoc(ts: Seq<TokenV>, t: TokenV)
    ensures
        toks_chars(ts.push(t)) == toks_chars(ts) + tok_chars(t),
    decreases ts.len(),
{
    if ts.len() == 0 {
        assert(ts.push(t)[0] == t);
        assert(ts.push(t).drop_first() =~= Seq::<TokenV>::empty());
        assert(toks_chars(Seq::<TokenV>::empty()) =~= Seq::<char>::empty());
        assert(toks_chars(ts.push(t)) =~= tok_chars(t) + Seq::<char>::empty());
        assert(tok_chars(t) + Seq::<char>::empty() =~= tok_chars(t));
        assert(toks_chars(ts) + tok_chars(t) =~= tok_chars(t));
    } else {
        lemma_toks_chars_snoc(ts.drop_first(), t);
        assert(ts.push(t).drop_first() =~= ts.drop_first().push(t));
        assert(ts.push(t)[0] == ts[0]);
        assert(toks_chars(ts.push(t)) == tok_chars(ts[0]) + (toks_chars(ts.drop_first())
            + tok_chars(t)));
        assert(tok_chars(ts[0]) + (toks_chars(ts.drop_first()) + tok_chars(t)) =~= (tok_chars(
            ts[0],
        ) + toks_chars(ts.drop_first())) + tok_chars(t));
    }
}

// ---------------------------------------------------------------------------
// Executable decoding
// ---------------------------------------------------------------------------

/// Whether a character is a decimal digit.
fn is_digit_char(c: char) -> (r: bool)
    ensures
        r == is_dec_digit(c),
{
    c == '0' || c == '1' || c == '2' || c == '3' || c == '4' || c == '5' || c == '6' || c == '7'
        || c == '8' || c == '9'
}

/// The value of a digit character.
fn digit_char_val(c: char) -> (r: u64)
    requires
        is_dec_digit(c),
    ensures
        r as nat == digit_val(c),
{
    if c == '0' { 0 }
    else if c == '1' { 1 }
    else if c == '2' { 2 }
    else if c == '3' { 3 }
    else if c == '4' { 4 }
    else if c == '5' { 5 }
    else if c == '6' { 6 }
    else if c == '7' { 7 }
    else if c == '8' { 8 }
    else { 9 }
}

/// Length of the digit run of `s` starting at `start`.
fn scan_digits(s: &str, start: usize) -> (k: usize)
    requires
        start <= s@.len(),
    ensures
        k as int == take_digits(s@.skip(start as int)),
        start + k <= s@.len(),
{
    let len = s.unicode_len();
    let mut i: usize = start;
    while i < len && is_digit_char(s.get_char(i))
        invariant
            start <= i <= len,
            len == s@.len(),
            take_digits(s@.skip(start as int)) == i - start + take_digits(s@.skip(i as int)),
        decreases len - i,
    {
        proof {
            assert(s@.skip(i as int)[0] == s@[i as int]);
            assert(s@.skip(i as int).drop_first() =~= s@.skip(i + 1));
        }
        i = i + 1;
    }
    proof {
        if i < len {
            assert(s@.skip(i as int)[0] == s@[i as int]);
        }
        assert(take_digits(s@.skip(i as int)) == 0);
    }
    i - start
}

/// Reads the value of the digit run `s[start .. start + k]`, or reports
/// that it exceeds the largest encodable number.
fn parse_u64(s: &str, start: usize, k: usize) -> (r: Option<u64>)
    requires
        start + k <= s@.len(),
        all_digits(s@.subrange(start as int, start + k)),
    ensures
        match r {
            Some(v) => v as nat == dec_val(s@.subrange(start as int, start + k)) && dec_val(
                s@.subrange(start as int, start + k),
            ) <= u64::MAX,
            None => dec_val(s@.subrange(start as int, start + k)) > u64::MAX,
        },
{
    let ghost whole = s@.subrange(start as int, start + k);
    let len = s.unicode_len();
    let mut val: u64 = 0;
    let mut i: usize = start;
    proof {
        assert(s@.subrange(start as int, start as int) =~= whole.take(0));
    }
    while i < start + k
        invariant
            start <= i <= start + k,
            start + k <= len,
            len == s@.len(),
            whole == s@.subrange(start as int, start + k),
            all_digits(whole),
            val as nat == dec_val(whole.take(i - start)),
        decreases start + k - i,
    {
        let ghost j = i - start;
        proof {
            assert(whole[j] == s@[i as int]);
            assert(is_dec_digit(whole[j]));
            assert(whole.take(j + 1).drop_last() =~= whole.take(j));
            assert(whole.take(j + 1).last() == whole[j]);
        }
        let d = digit_char_val(s.get_char(i));
        if val > (u64::MAX - d) / 10 {
            proof {
                let q = ((u64::MAX - d) / 10) as int;
                vstd::arithmetic::div_mod::lemma_fundamental_div_mod(u64::MAX - d, 10);
                assert(val as int * 10 >= (q + 1) * 10) by (nonlinear_arith)
                    requires
                        val as int >= q + 1,
                ;
                assert(dec_val(whole.take(j + 1)) > u64::MAX);
                lemma_dec_val_prefix_le(whole, j + 1);
                assert(whole.take(whole.len() as int) =~= whole);
            }
            return None;
        }
        proof {
            let q = ((u64::MAX - d) / 10) as int;
            vstd::arithmetic::div_mod::lemma_fundamental_div_mod(u64::MAX - d, 10);
            assert(val as int * 10 <= q * 10) by (nonlinear_arith)
                requires
                    val as int <= q,
            ;
        }
        val = val * 10 + d;
        i = i + 1;
    }
    proof {
        assert(whole.take(k as int) =~= whole);
    }
    Some(val)
}

/// Reads one token at `pos`, mirroring `tok_decode_one` on the suffix.
fn decode_token(s: &str, pos: usize) -> (r: Option<(Token, usize)>)
    requires
        pos < s@.len(),
    ensures
        match r {
            Some((t, c)) => tok_decode_one(s@.skip(pos as int)) == Some((t@, c as int)) && 1 <= c
                && pos + c <= s@.len(),
            None => tok_decode_one(s@.skip(pos as int)) is None,
        },
{
    let ghost suf = s@.skip(pos as int);
    proof {
        assert(suf[0] == s@[pos as int]);
    }
    let len = s.unicode_len();
    let c0 = s.get_char(pos);
    if c0 == 'u' {
        let ghost r0 = suf.drop_first();
        proof {
            assert(r0 =~= s@.skip(pos + 1));
        }
        let k = scan_digits(s, pos + 1);
        if k == 0 {
            return None;
        }
        proof {
            lemma_take_digits_bounds(r0);
            assert(r0.take(k as int) =~= s@.subrange(pos + 1, pos + 1 + k));
        }
        let v = match parse_u64(s, pos + 1, k) {
            Some(v) => v,
            None => {
                return None;
            },
        };
        if pos + 1 + k < len && s.get_char(pos + 1 + k) == ';' {
            proof {
                assert(r0[k as int] == s@[pos + 1 + k]);
            }
            Some((Token::U(v), 2 + k))
        } else {
            proof {
                if (k as int) < r0.len() {
                    assert(r0[k as int] == s@[pos + 1 + k]);
                }
            }
            None
        }
    } else if c0 == 's' {
        let ghost r0 = suf.drop_first();
        proof {
            assert(r0 =~= s@.skip(pos + 1));
        }
        let k = scan_digits(s, pos + 1);
        if k == 0 {
            return None;
        }
        proof {
            lemma_take_digits_bounds(r0);
            assert(r0.take(k as int) =~= s@.subrange(pos + 1, pos + 1 + k));
        }
        let l = match parse_u64(s, pos + 1, k) {
            Some(v) => v,
            None => {
                return None;
            },
        };
        if pos + 1 + k < len && s.get_char(pos + 1 + k) == ':' {
            proof {
                assert(r0[k as int] == s@[pos + 1 + k]);
            }
            let after = pos + 2 + k;
            if l <= (len - after) as u64 {
                let l_us = l as usize;
                let body = s.substring_char(after, after + l_us);
                let tok = body.to_owned();
                proof {
                    assert(r0.subrange(k + 1, k + 1 + l as int) =~= s@.subrange(
                        after as int,
                        after + l as int,
                    ));
                }
                Some((Token::S(tok), 2 + k + l_us))
            } else {
                None
            }
        } else {
            proof {
                if (k as int) < r0.len() {
                    assert(r0[k as int] == s@[pos + 1 + k]);
                }
            }
            None
        }
    } else {
        None
    }
}

/// Decodes a whole text as a token stream; fails exactly when the
/// text is not the encoding of one.
pub fn decode_tokens(s: &str) -> (r: Result<Vec<Token>, CoreError>)
    ensures
        match r {
            Ok(v) => toks_decode(s@) == Some(toks_view(v@)),
            Err(e) => toks_decode(s@) is None && e == CoreError::DecodeError,
        },
{
    let len = s.unicode_len();
    let mut out: Vec<Token> = Vec::new();
    let mut pos: usize = 0;
    proof {
        assert(s@.skip(0) =~= s@);
        assert(toks_view(out@) =~= Seq::<TokenV>::empty());
    }
    while pos < len
        invariant
            pos <= len,
            len == s@.len(),
            toks_decode(s@) == match toks_decode(s@.skip(pos as int)) {
                Some(rest) => Some(toks_view(out@) + rest),
                None => None::<Seq<TokenV>>,
            },
        decreases len - pos,
    {
        match decode_token(s, pos) {
            Some((t, c)) => {
                proof {
                    assert(s@.skip(pos as int).skip(c as int) =~= s@.skip(pos + c));
                    lemma_toks_view_snoc(out@, t);
                }
                out.push(t);
                pos = pos + c;
            },
            None => {
                proof {
                    assert(s@.skip(pos as int).len() > 0);
                }
                return Err(CoreError::DecodeError);
            },
        }
    }
    proof {
        assert(s@.skip(pos as int) =~= Seq::<char>::empty());
        assert(toks_decode(s@.skip(pos as int)) == Some(Seq::<TokenV>::empty()));
        assert(toks_view(out@) + Seq::<TokenV>::empty() =~= toks_view(out@));
    }
    Ok(out)
}

pub proof fn lemma_toks_view_snoc(v: Seq<Token>, t: Token)
    ensures
        toks_view(v.push(t)) == toks_view(v).push(t@),
{
    assert(toks_view(v.push(t)) =~= toks_view(v).push(t@));
}

} // verus!
