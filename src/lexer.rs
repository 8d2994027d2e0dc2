//! Splitting dice notation into tokens.
//!
//! A token is a number literal (digits, optionally a point and more digits,
//! at most `MAX_DIGITS` digits in all), a run of ASCII letters such as `kh`,
//! `d` or `max`, or punctuation; spaces, tabs and line breaks only separate
//! tokens. Any other byte is an error.
use vstd::prelude::*;

use crate::grammar::CompareOp;
use crate::number::{lemma_normalize_bounds, normalize, Rational};

verus! {

/// The most digits a number literal may have, counting both sides of the
/// decimal point.
pub const MAX_DIGITS: usize = 18;

/// Punctuation and operator tokens.
#[derive(Clone, Copy, Debug, PartialEq, Eq, Structural)]
pub enum Punct {
    LParen,
    RParen,
    LBracket,
    RBracket,
    Comma,
    Plus,
    Minus,
    Star,
    Slash,
    DoubleSlash,
    Percent,
    Bang,
    DoubleBang,
    Cmp(CompareOp),
}

/// A token: a number literal, a run of letters, or punctuation.
#[derive(Debug, PartialEq)]
pub enum Token {
    Num(Rational),
    Word(String),
    Punct(Punct),
}

pub enum TokView {
    Num((int, int)),
    Word(Seq<char>),
    Punct(Punct),
}

impl View for Token {
    type V = TokView;

    open spec fn view(&self) -> TokView {
        match self {
            Token::Num(x) => TokView::Num(x@),
            Token::Word(w) => TokView::Word(w@),
            Token::Punct(p) => TokView::Punct(*p),
        }
    }
}

pub open spec fn tok_views(ts: Seq<Token>) -> Seq<TokView> {
    ts.map_values(|t: Token| t@)
}

pub open spec fn is_digit(b: u8) -> bool {
    48 <= b <= 57
}

pub open spec fn is_letter(b: u8) -> bool {
    (65 <= b <= 90) || (97 <= b <= 122)
}

pub open spec fn is_space(b: u8) -> bool {
    b == 32 || b == 9 || b == 10 || b == 13
}

/// The end of the run of bytes satisfying `digit` (or else letters) from `p`.
pub open spec fn run_end(s: Seq<u8>, p: int, digit: bool) -> int
    decreases s.len() - p,
{
    if 0 <= p < s.len() && (if digit {
        is_digit(s[p])
    } else {
        is_letter(s[p])
    }) {
        run_end(s, p + 1, digit)
    } else {
        p
    }
}

pub open spec fn pow10(k: nat) -> int
    decreases k,
{
    if k == 0 {
        1
    } else {
        10 * pow10((k - 1) as nat)
    }
}

/// The decimal value of the digits `s[a..b]`.
pub open spec fn digits_value(s: Seq<u8>, a: int, b: int) -> int
    decreases b - a,
{
    if b <= a {
        0
    } else {
        digits_value(s, a, b - 1) * 10 + (s[b - 1] - 48)
    }
}

/// A number literal starting at the digit at `p`: digits, then optionally a
/// point and more digits, at most `MAX_DIGITS` digits in all.
pub open spec fn number_at(s: Seq<u8>, p: int) -> Option<(TokView, int)> {
    let a = run_end(s, p, true);
    if a + 1 < s.len() && s[a] == 46 && is_digit(s[a + 1]) {
        let b = run_end(s, a + 1, true);
        let k = (b - a - 1) as nat;
        if b - p - 1 <= MAX_DIGITS {
            Some(
                (
                    TokView::Num(
                        normalize(digits_value(s, p, a) * pow10(k) + digits_value(s, a + 1, b), pow10(k)),
                    ),
                    b,
                ),
            )
        } else {
            None
        }
    } else if a - p <= MAX_DIGITS {
        Some((TokView::Num((digits_value(s, p, a), 1)), a))
    } else {
        None
    }
}

pub open spec fn chars_of(b: Seq<u8>) -> Seq<char> {
    b.map_values(|x: u8| x as char)
}

/// A byte that is a token on its own, or the first of a two-byte token.
pub open spec fn punct_at(s: Seq<u8>, p: int) -> Option<(TokView, int)> {
    let b = s[p];
    let next_is = |c: u8| p + 1 < s.len() && s[p + 1] == c;
    if b == 40 {
        Some((TokView::Punct(Punct::LParen), p + 1))
    } else if b == 41 {
        Some((TokView::Punct(Punct::RParen), p + 1))
    } else if b == 91 {
        Some((TokView::Punct(Punct::LBracket), p + 1))
    } else if b == 93 {
        Some((TokView::Punct(Punct::RBracket), p + 1))
    } else if b == 44 {
        Some((TokView::Punct(Punct::Comma), p + 1))
    } else if b == 43 {
        Some((TokView::Punct(Punct::Plus), p + 1))
    } else if b == 45 {
        Some((TokView::Punct(Punct::Minus), p + 1))
    } else if b == 42 {
        Some((TokView::Punct(Punct::Star), p + 1))
    } else if b == 37 {
        Some((TokView::Punct(Punct::Percent), p + 1))
    } else if b == 47 {
        if next_is(47) {
            Some((TokView::Punct(Punct::DoubleSlash), p + 2))
        } else {
            Some((TokView::Punct(Punct::Slash), p + 1))
        }
    } else if b == 33 {
        if next_is(33) {
            Some((TokView::Punct(Punct::DoubleBang), p + 2))
        } else {
            Some((TokView::Punct(Punct::Bang), p + 1))
        }
    } else if b == 62 {
        if next_is(61) {
            Some((TokView::Punct(Punct::Cmp(CompareOp::GreaterEqual)), p + 2))
        } else {
            Some((TokView::Punct(Punct::Cmp(CompareOp::Greater)), p + 1))
        }
    } else if b == 60 {
        if next_is(61) {
            Some((TokView::Punct(Punct::Cmp(CompareOp::LessEqual)), p + 2))
        } else {
            Some((TokView::Punct(Punct::Cmp(CompareOp::Less)), p + 1))
        }
    } else if b == 61 {
        Some((TokView::Punct(Punct::Cmp(CompareOp::Equal)), p + 1))
    } else {
        None
    }
}

/// The token that starts at `p` (not a space), and where it ends.
pub open spec fn token_at(s: Seq<u8>, p: int) -> Option<(TokView, int)> {
    if is_digit(s[p]) {
        number_at(s, p)
    } else if is_letter(s[p]) {
        let e = run_end(s, p, false);
        Some((TokView::Word(chars_of(s.subrange(p, e))), e))
    } else {
        punct_at(s, p)
    }
}

/// The tokens of `s[p..]`, spaces between them dropped; `None` when some
/// byte starts no token.
pub open spec fn lex(s: Seq<u8>, p: int) -> Option<Seq<TokView>>
    decreases s.len() - p,
{
    if p < 0 || p >= s.len() {
        Some(Seq::empty())
    } else if is_space(s[p]) {
        lex(s, p + 1)
    } else {
        match token_at(s, p) {
            Some((t, q)) => if p < q <= s.len() {
                match lex(s, q) {
                    Some(rest) => Some(seq![t] + rest),
                    None => None,
                }
            } else {
                None
            },
            None => None,
        }
    }
}

proof fn lemma_pow10_mono(j: nat, k: nat)
    requires
        j <= k,
    ensures
        1 <= pow10(j) <= pow10(k),
    decreases k,
{
    if k > j {
        lemma_pow10_mono(j, (k - 1) as nat);
    } else if k > 0 {
        lemma_pow10_mono(0, (k - 1) as nat);
    }
}

proof fn lemma_pow10_max()
    ensures
        pow10(MAX_DIGITS as nat) == 1_000_000_000_000_000_000,
{
    reveal_with_fuel(pow10, 19);
}

/// Relies on `String::push`: the character is appended.
#[verifier::external_body]
fn push_char(s: &mut String, c: char)
    ensures
        final(s)@ == old(s)@.push(c),
{
    s.push(c);
}

fn in_run(b: u8, digit: bool) -> (r: bool)
    ensures
        r == if digit {
            is_digit(b)
        } else {
            is_letter(b)
        },
{
    if digit {
        48 <= b && b <= 57
    } else {
        (65 <= b && b <= 90) || (97 <= b && b <= 122)
    }
}

fn run_end_exec(s: &[u8], p: usize, digit: bool) -> (r: usize)
    requires
        p <= s@.len(),
    ensures
        r == run_end(s@, p as int, digit),
        p <= r <= s@.len(),
        p < s@.len() && (if digit {
            is_digit(s@[p as int])
        } else {
            is_letter(s@[p as int])
        }) ==> r > p,
        forall|i: int|
            p <= i < r ==> (if digit {
                is_digit(#[trigger] s@[i])
            } else {
                is_letter(s@[i])
            }),
{
    let mut i = p;
    while i < s.len() && in_run(s[i], digit)
        invariant
            p <= i <= s@.len(),
            run_end(s@, i as int, digit) == run_end(s@, p as int, digit),
            forall|j: int|
                p <= j < i ==> (if digit {
                    is_digit(#[trigger] s@[j])
                } else {
                    is_letter(s@[j])
                }),
        decreases s@.len() - i,
    {
        i += 1;
    }
    i
}

/// Lexes the number literal whose first digit is at `p`.
fn number_exec(s: &[u8], p: usize) -> (r: Option<(Rational, usize)>)
    requires
        p < s@.len(),
        is_digit(s@[p as int]),
    ensures
        r matches Some((x, q)) ==> number_at(s@, p as int) == Some((TokView::Num(x@), q as int))
            && p < q <= s@.len(),
        r is None ==> number_at(s@, p as int) is None,
{
    let a = run_end_exec(s, p, true);
    let fraction = a < s.len() && s[a] == 46 && a + 1 < s.len() && 48 <= s[a + 1] && s[a + 1] <= 57;
    let b = if fraction {
        run_end_exec(s, a + 1, true)
    } else {
        a
    };
    let digits = if fraction {
        b - p - 1
    } else {
        a - p
    };
    if digits > MAX_DIGITS {
        return None;
    }
    proof {
        lemma_pow10_max();
    }
    let mut acc: u64 = 0;
    let mut i = p;
    while i < a
        invariant
            p <= i <= a,
            a - p <= MAX_DIGITS,
            forall|j: int| p <= j < a ==> is_digit(#[trigger] s@[j]),
            a <= s@.len(),
            acc == digits_value(s@, p as int, i as int),
            acc < pow10((i - p) as nat),
            pow10(MAX_DIGITS as nat) == 1_000_000_000_000_000_000,
        decreases a - i,
    {
        proof {
            lemma_pow10_mono((i - p + 1) as nat, MAX_DIGITS as nat);
        }
        let d = (s[i] - 48) as u64;
        assert(acc * 10 + d < pow10((i + 1 - p) as nat)) by (nonlinear_arith)
            requires acc < pow10((i - p) as nat), d <= 9, pow10((i + 1 - p) as nat) == 10 * pow10((i - p) as nat);
        acc = acc * 10 + d;
        i += 1;
    }
    proof {
        lemma_pow10_mono((a - p) as nat, MAX_DIGITS as nat);
    }
    if !fraction {
        let x = Rational::integer(acc as i64);
        return Some((x, a));
    }
    let ghost int_part = acc as int;
    let mut den: u64 = 1;
    let mut j = a + 1;
    assert(digits_value(s@, a + 1, a + 1) == 0);
    while j < b
        invariant
            p < a + 1 <= j <= b,
            b <= s@.len(),
            b - p - 1 <= MAX_DIGITS,
            forall|k: int| a + 1 <= k < b ==> is_digit(#[trigger] s@[k]),
            int_part == digits_value(s@, p as int, a as int),
            den == pow10((j - a - 1) as nat),
            acc == int_part * den + digits_value(s@, a + 1, j as int),
            acc < pow10((a - p + j - a - 1) as nat),
            pow10(MAX_DIGITS as nat) == 1_000_000_000_000_000_000,
        decreases b - j,
    {
        proof {
            lemma_pow10_mono((a - p + j - a) as nat, MAX_DIGITS as nat);
            lemma_pow10_mono((j - a) as nat, MAX_DIGITS as nat);
        }
        let d = (s[j] - 48) as u64;
        let ghost f = digits_value(s@, a + 1, j as int);
        assert(acc * 10 + d < pow10((a - p + j - a) as nat)) by (nonlinear_arith)
            requires acc < pow10((a - p + j - a - 1) as nat), d <= 9,
                pow10((a - p + j - a) as nat) == 10 * pow10((a - p + j - a - 1) as nat);
        assert(acc * 10 + d == int_part * (den * 10) + (f * 10 + d)) by (nonlinear_arith)
            requires acc == int_part * den + f;
        acc = acc * 10 + d;
        den = den * 10;
        j += 1;
    }
    proof {
        lemma_pow10_mono((b - a - 1) as nat, MAX_DIGITS as nat);
        lemma_pow10_mono((b - p - 1) as nat, MAX_DIGITS as nat);
        lemma_normalize_bounds(acc as int, den as int);
    }
    match Rational::new(acc as i64, den as i64) {
        Some(x) => Some((x, b)),
        None => None,
    }
}

fn punct_exec(s: &[u8], p: usize) -> (r: Option<(Punct, usize)>)
    requires
        p < s@.len(),
    ensures
        r matches Some((t, q)) ==> punct_at(s@, p as int) == Some((TokView::Punct(t), q as int))
            && p < q <= s@.len(),
        r is None ==> punct_at(s@, p as int) is None,
{
    let b = s[p];
    let next: u8 = if p + 1 < s.len() {
        s[p + 1]
    } else {
        0
    };
    if b == 40 {
        Some((Punct::LParen, p + 1))
    } else if b == 41 {
        Some((Punct::RParen, p + 1))
    } else if b == 91 {
        Some((Punct::LBracket, p + 1))
    } else if b == 93 {
        Some((Punct::RBracket, p + 1))
    } else if b == 44 {
        Some((Punct::Comma, p + 1))
    } else if b == 43 {
        Some((Punct::Plus, p + 1))
    } else if b == 45 {
        Some((Punct::Minus, p + 1))
    } else if b == 42 {
        Some((Punct::Star, p + 1))
    } else if b == 37 {
        Some((Punct::Percent, p + 1))
    } else if b == 47 {
        if next == 47 {
            Some((Punct::DoubleSlash, p + 2))
        } else {
            Some((Punct::Slash, p + 1))
        }
    } else if b == 33 {
        if next == 33 {
            Some((Punct::DoubleBang, p + 2))
        } else {
            Some((Punct::Bang, p + 1))
        }
    } else if b == 62 {
        if next == 61 {
            Some((Punct::Cmp(CompareOp::GreaterEqual), p + 2))
        } else {
            Some((Punct::Cmp(CompareOp::Greater), p + 1))
        }
    } else if b == 60 {
        if next == 61 {
            Some((Punct::Cmp(CompareOp::LessEqual), p + 2))
        } else {
            Some((Punct::Cmp(CompareOp::Less), p + 1))
        }
    } else if b == 61 {
        Some((Punct::Cmp(CompareOp::Equal), p + 1))
    } else {
        None
    }
}

/// The letters `s[p..e]` as a string.
fn word_exec(s: &[u8], p: usize, e: usize) -> (r: String)
    requires
        p <= e <= s@.len(),
    ensures
        r@ == chars_of(s@.subrange(p as int, e as int)),
{
    let mut w = String::new();
    let mut i = p;
    while i < e
        invariant
            p <= i <= e <= s@.len(),
            w@ == chars_of(s@.subrange(p as int, i as int)),
        decreases e - i,
    {
        push_char(&mut w, s[i] as char);
        i += 1;
        assert(w@ =~= chars_of(s@.subrange(p as int, i as int)));
    }
    w
}

/// Splits `s` into tokens; `None` when some byte starts no token.
pub fn tokenize(s: &[u8]) -> (r: Option<Vec<Token>>)
    ensures
        r matches Some(ts) ==> lex(s@, 0) == Some(tok_views(ts@)),
        r is None ==> lex(s@, 0) is None,
{
    let mut out: Vec<Token> = Vec::new();
    let mut i: usize = 0;
    while i < s.len()
        invariant
            i <= s@.len(),
            match lex(s@, i as int) {
                Some(rest) => lex(s@, 0) == Some(tok_views(out@) + rest),
                None => lex(s@, 0) is None,
            },
        decreases s@.len() - i,
    {
        let b = s[i];
        if b == 32 || b == 9 || b == 10 || b == 13 {
            i += 1;
        } else {
            let ghost before = out@;
            let step: Option<(Token, usize)> = if 48 <= b && b <= 57 {
                match number_exec(s, i) {
                    Some((x, q)) => Some((Token::Num(x), q)),
                    None => None,
                }
            } else if (65 <= b && b <= 90) || (97 <= b && b <= 122) {
                let e = run_end_exec(s, i, false);
                Some((Token::Word(word_exec(s, i, e)), e))
            } else {
                match punct_exec(s, i) {
                    Some((t, q)) => Some((Token::Punct(t), q)),
                    None => None,
                }
            };
            match step {
                Some((t, q)) => {
                    assert(token_at(s@, i as int) == Some((t@, q as int)));
                    out.push(t);
                    assert(tok_views(out@) =~= tok_views(before).push(t@));
                    proof {
                        match lex(s@, q as int) {
                            Some(rest) => {
                                assert(tok_views(out@) + rest =~= tok_views(before) + (seq![t@]
                                    + rest));
                            },
                            None => {},
                        }
                    }
                    i = q;
                },
                None => {
                    return None;
                },
            }
        }
    }
    assert(tok_views(out@) + Seq::<TokView>::empty() =~= tok_views(out@));
    Some(out)
}

} // verus!
