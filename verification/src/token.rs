//! Tokenizer for the textual overload mini-language.
//!
//! The grammar operates on a token stream of identifiers, integer literals
//! and the punctuation `( ) { } , - -> : ...`; whitespace separates tokens.
//! A malformed character or an integer literal too large to represent is a
//! build-time fatal error: no token stream is produced.

use vstd::prelude::*;
use vstd::string::StrSliceExecFns;
use vstd::string::StringExecFns;

verus! {

/// One token of the overload mini-language.
#[derive(Debug, Clone, PartialEq, Eq)]
pub enum Token {
    /// An identifier: a type atom, an operator name, or a function name.
    Ident(String),
    /// An unsigned integer literal.
    Int(usize),
    LParen,
    RParen,
    LBrace,
    RBrace,
    Comma,
    Minus,
    Arrow,
    Colon,
    Ellipsis,
}

/// The mathematical shape of a token: identifier text as a character
/// sequence.
pub enum TokenModel {
    Ident(Seq<char>),
    Int(usize),
    LParen,
    RParen,
    LBrace,
    RBrace,
    Comma,
    Minus,
    Arrow,
    Colon,
    Ellipsis,
}

impl View for Token {
    type V = TokenModel;

    open spec fn view(&self) -> TokenModel {
        match self {
            Token::Ident(s) => TokenModel::Ident(s@),
            Token::Int(n) => TokenModel::Int(*n),
            Token::LParen => TokenModel::LParen,
            Token::RParen => TokenModel::RParen,
            Token::LBrace => TokenModel::LBrace,
            Token::RBrace => TokenModel::RBrace,
            Token::Comma => TokenModel::Comma,
            Token::Minus => TokenModel::Minus,
            Token::Arrow => TokenModel::Arrow,
            Token::Colon => TokenModel::Colon,
            Token::Ellipsis => TokenModel::Ellipsis,
        }
    }
}

/// The views of a sequence of tokens.
pub open spec fn tokens_view(ts: Seq<Token>) -> Seq<TokenModel> {
    ts.map_values(|t: Token| t@)
}

/// Whitespace between tokens.
pub open spec fn is_space(c: char) -> bool {
    c == ' ' || c == '\t' || c == '\n' || c == '\r'
}

/// An ASCII decimal digit.
pub open spec fn is_digit(c: char) -> bool {
    48 <= c as u32 <= 57
}

/// The numeric value of a decimal digit.
pub open spec fn digit_val(c: char) -> int {
    c as u32 - 48
}

/// A character that may start an identifier.
pub open spec fn is_ident_start(c: char) -> bool {
    (65 <= c as u32 <= 90) || (97 <= c as u32 <= 122) || c == '_'
}

/// A character that may continue an identifier.
pub open spec fn is_ident_char(c: char) -> bool {
    is_ident_start(c) || is_digit(c)
}

/// The value of a string of decimal digits.
pub open spec fn digits_value(s: Seq<char>) -> int
    decreases s,
{
    if s.len() == 0 {
        0
    } else {
        digits_value(s.drop_last()) * 10 + digit_val(s.last())
    }
}

/// The first position at or after `i` holding no digit.
pub open spec fn digits_end(s: Seq<char>, i: int) -> int
    decreases s.len() - i
        when 0 <= i <= s.len()
{
    if i < s.len() && is_digit(s[i]) {
        digits_end(s, i + 1)
    } else {
        i
    }
}

/// The first position at or after `i` holding no identifier character.
pub open spec fn ident_end(s: Seq<char>, i: int) -> int
    decreases s.len() - i
        when 0 <= i <= s.len()
{
    if i < s.len() && is_ident_char(s[i]) {
        ident_end(s, i + 1)
    } else {
        i
    }
}

/// A digit run ends within the string, after its start, and holds digits
/// throughout.
pub proof fn lemma_digits_end(s: Seq<char>, i: int)
    requires
        0 <= i <= s.len(),
    ensures
        i <= digits_end(s, i) <= s.len(),
        forall|m: int| i <= m < digits_end(s, i) ==> is_digit(#[trigger] s[m]),
        digits_end(s, i) < s.len() ==> !is_digit(s[digits_end(s, i)]),
    decreases s.len() - i,
{
    if i < s.len() && is_digit(s[i]) {
        lemma_digits_end(s, i + 1);
    }
}

/// An identifier run ends within the string, after its start, and holds
/// identifier characters throughout.
pub proof fn lemma_ident_end(s: Seq<char>, i: int)
    requires
        0 <= i <= s.len(),
    ensures
        i <= ident_end(s, i) <= s.len(),
        forall|m: int| i <= m < ident_end(s, i) ==> is_ident_char(#[trigger] s[m]),
        ident_end(s, i) < s.len() ==> !is_ident_char(s[ident_end(s, i)]),
    decreases s.len() - i,
{
    if i < s.len() && is_ident_char(s[i]) {
        lemma_ident_end(s, i + 1);
    }
}

/// The value of a digit string is never negative.
pub proof fn lemma_digits_value_nonneg(s: Seq<char>)
    requires
        forall|m: int| 0 <= m < s.len() ==> is_digit(#[trigger] s[m]),
    ensures
        digits_value(s) >= 0,
    decreases s,
{
    if s.len() > 0 {
        lemma_digits_value_nonneg(s.drop_last());
    }
}

/// Extending a digit string never shrinks its value.
pub proof fn lemma_digits_value_mono(s: Seq<char>, i: int, j: int, k: int)
    requires
        0 <= i <= j <= k <= s.len(),
        forall|m: int| i <= m < k ==> is_digit(#[trigger] s[m]),
    ensures
        digits_value(s.subrange(i, j)) <= digits_value(s.subrange(i, k)),
    decreases k - j,
{
    if j < k {
        lemma_digits_value_mono(s, i, j, k - 1);
        let shorter = s.subrange(i, k - 1);
        let longer = s.subrange(i, k);
        assert(longer.drop_last() =~= shorter);
        assert(forall|m: int| 0 <= m < shorter.len() ==> is_digit(#[trigger] shorter[m]));
        lemma_digits_value_nonneg(shorter);
    }
}

/// The token starting at position `i` of the input together with the
/// position just past it, or nothing if no token starts there.
pub open spec fn spec_next_token(s: Seq<char>, i: int) -> Option<(TokenModel, int)>
    decreases 0int
        when 0 <= i < s.len()
{
    let c = s[i];
    if c == '(' {
        Some((TokenModel::LParen, i + 1))
    } else if c == ')' {
        Some((TokenModel::RParen, i + 1))
    } else if c == '{' {
        Some((TokenModel::LBrace, i + 1))
    } else if c == '}' {
        Some((TokenModel::RBrace, i + 1))
    } else if c == ',' {
        Some((TokenModel::Comma, i + 1))
    } else if c == ':' {
        Some((TokenModel::Colon, i + 1))
    } else if c == '-' {
        if i + 1 < s.len() && s[i + 1] == '>' {
            Some((TokenModel::Arrow, i + 2))
        } else {
            Some((TokenModel::Minus, i + 1))
        }
    } else if c == '.' {
        if i + 2 < s.len() && s[i + 1] == '.' && s[i + 2] == '.' {
            Some((TokenModel::Ellipsis, i + 3))
        } else {
            None
        }
    } else if is_digit(c) {
        let e = digits_end(s, i);
        let v = digits_value(s.subrange(i, e));
        if v <= usize::MAX {
            Some((TokenModel::Int(v as usize), e))
        } else {
            None
        }
    } else if is_ident_start(c) {
        let e = ident_end(s, i);
        Some((TokenModel::Ident(s.subrange(i, e)), e))
    } else {
        None
    }
}

/// The token stream of the input from position `i` on, or nothing if some
/// character starts no token or an integer literal does not fit.
pub open spec fn spec_tokenize(s: Seq<char>, i: int) -> Option<Seq<TokenModel>>
    decreases s.len() - i
        when 0 <= i <= s.len()
{
    if i >= s.len() {
        Some(Seq::empty())
    } else if is_space(s[i]) {
        spec_tokenize(s, i + 1)
    } else {
        proof {
            lemma_digits_end(s, i);
            lemma_ident_end(s, i);
        }
        match spec_next_token(s, i) {
            None => None,
            Some((t, j)) => match spec_tokenize(s, j) {
                None => None,
                Some(ts) => Some(seq![t] + ts),
            },
        }
    }
}

/// Whether `c` is an ASCII decimal digit.
fn exec_is_digit(c: char) -> (r: bool)
    ensures
        r == is_digit(c),
{
    let u = c as u32;
    48 <= u && u <= 57
}

/// Whether `c` may start an identifier.
fn exec_is_ident_start(c: char) -> (r: bool)
    ensures
        r == is_ident_start(c),
{
    let u = c as u32;
    (65 <= u && u <= 90) || (97 <= u && u <= 122) || c == '_'
}

/// Whether `c` may continue an identifier.
fn exec_is_ident_char(c: char) -> (r: bool)
    ensures
        r == is_ident_char(c),
{
    exec_is_ident_start(c) || exec_is_digit(c)
}

/// Reads the token starting at position `i`.
#[verifier::loop_isolation(false)]
fn next_token(s: &str, i: usize) -> (r: Option<(Token, usize)>)
    requires
        i < s@.len(),
    ensures
        match r {
            Some(tj) => spec_next_token(s@, i as int) == Some((tj.0@, tj.1 as int)) && i < tj.1
                <= s@.len(),
            None => spec_next_token(s@, i as int) is None,
        },
{
    let len = s.unicode_len();
    let c = s.get_char(i);
    if c == '(' {
        Some((Token::LParen, i + 1))
    } else if c == ')' {
        Some((Token::RParen, i + 1))
    } else if c == '{' {
        Some((Token::LBrace, i + 1))
    } else if c == '}' {
        Some((Token::RBrace, i + 1))
    } else if c == ',' {
        Some((Token::Comma, i + 1))
    } else if c == ':' {
        Some((Token::Colon, i + 1))
    } else if c == '-' {
        if len - i >= 2 && s.get_char(i + 1) == '>' {
            Some((Token::Arrow, i + 2))
        } else {
            Some((Token::Minus, i + 1))
        }
    } else if c == '.' {
        if len - i >= 3 && s.get_char(i + 1) == '.' && s.get_char(i + 2) == '.' {
            Some((Token::Ellipsis, i + 3))
        } else {
            None
        }
    } else if exec_is_digit(c) {
        proof {
            lemma_digits_end(s@, i as int);
        }
        let ghost end = digits_end(s@, i as int);
        let mut e: usize = i;
        let mut val: usize = 0;
        let mut overflow = false;
        while e < len && exec_is_digit(s.get_char(e))
            invariant
                i <= e <= s@.len(),
                digits_end(s@, e as int) == end,
                e <= end,
                !overflow ==> val == digits_value(s@.subrange(i as int, e as int)),
                overflow ==> digits_value(s@.subrange(i as int, end)) > usize::MAX,
            decreases s@.len() - e,
        {
            let d = (s.get_char(e) as u32 - 48) as usize;
            proof {
                assert(s@.subrange(i as int, e + 1).drop_last() =~= s@.subrange(
                    i as int,
                    e as int,
                ));
                assert(s@.subrange(i as int, e + 1).last() == s@[e as int]);
            }
            if !overflow {
                if val > (usize::MAX - d) / 10 {
                    overflow = true;
                    proof {
                        let here = s@.subrange(i as int, e + 1);
                        assert(digits_value(here) == val * 10 + d);
                        lemma_digits_value_mono(s@, i as int, e + 1, end);
                    }
                } else {
                    val = val * 10 + d;
                }
            } else {
                proof {
                    lemma_digits_value_mono(s@, i as int, e as int, end);
                }
            }
            e += 1;
        }
        proof {
            assert(digits_end(s@, e as int) == e);
        }
        if overflow {
            None
        } else {
            Some((Token::Int(val), e))
        }
    } else if exec_is_ident_start(c) {
        proof {
            lemma_ident_end(s@, i as int);
        }
        let ghost end = ident_end(s@, i as int);
        let mut e: usize = i;
        while e < len && exec_is_ident_char(s.get_char(e))
            invariant
                i <= e <= s@.len(),
                ident_end(s@, e as int) == end,
                e <= end,
            decreases s@.len() - e,
        {
            e += 1;
        }
        proof {
            assert(ident_end(s@, e as int) == e);
        }
        let text = s.substring_char(i, e).to_owned();
        Some((Token::Ident(text), e))
    } else {
        None
    }
}

/// Appends the tokens of the input from position `i` on to `acc`; reports
/// failure exactly where the token stream is malformed.
fn tokenize_rec(s: &str, i: usize, acc: &mut Vec<Token>) -> (ok: bool)
    requires
        i <= s@.len(),
    ensures
        match spec_tokenize(s@, i as int) {
            Some(ts) => ok && tokens_view(final(acc)@) == tokens_view(old(acc)@) + ts,
            None => !ok,
        },
    decreases s@.len() - i,
{
    if i >= s.unicode_len() {
        proof {
            assert(tokens_view(acc@) =~= tokens_view(acc@) + Seq::<TokenModel>::empty());
        }
        return true;
    }
    let c = s.get_char(i);
    if c == ' ' || c == '\t' || c == '\n' || c == '\r' {
        return tokenize_rec(s, i + 1, acc);
    }
    match next_token(s, i) {
        None => false,
        Some((t, j)) => {
            let ghost tv = t@;
            let ghost pre = acc@;
            acc.push(t);
            proof {
                assert(tokens_view(acc@) =~= tokens_view(pre) + seq![tv]);
            }
            let ok = tokenize_rec(s, j, acc);
            proof {
                if ok {
                    let ts = spec_tokenize(s@, j as int).unwrap();
                    assert(tokens_view(pre) + seq![tv] + ts =~= tokens_view(pre) + (
                    seq![tv] + ts));
                }
            }
            ok
        },
    }
}

/// Splits the input into the token stream of the overload mini-language,
/// or reports a malformed input (an unrecognized character, or an integer
/// literal too large to represent).
pub fn tokenize(s: &str) -> (r: Option<Vec<Token>>)
    ensures
        match r {
            Some(v) => spec_tokenize(s@, 0) == Some(tokens_view(v@)),
            None => spec_tokenize(s@, 0) is None,
        },
{
    let mut acc: Vec<Token> = Vec::new();
    let ok = tokenize_rec(s, 0, &mut acc);
    proof {
        assert(tokens_view(Seq::<Token>::empty()) =~= Seq::<TokenModel>::empty());
    }
    if ok {
        proof {
            if spec_tokenize(s@, 0) is Some {
                assert(tokens_view(acc@) =~= Seq::<TokenModel>::empty() + spec_tokenize(
                    s@,
                    0,
                ).unwrap());
            }
        }
        Some(acc)
    } else {
        None
    }
}

} // verus!
