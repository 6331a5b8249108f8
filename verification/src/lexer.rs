//! Splitting a text into tokens.

use vstd::prelude::*;
use vstd::string::*;

verus! {

/// The characters of a text.
pub fn characters(s: &str) -> (r: Vec<char>)
    ensures
        r@ == s@,
{
    let mut out: Vec<char> = Vec::new();
    for c in it: s.chars()
        invariant
            out@ == it.seq().take(it.index() as int),
            it.seq() == s@,
    {
        out.push(c);
    }
    out
}

/// Blank characters, which separate tokens.
pub open spec fn blank(c: char) -> bool {
    c == ' ' || c == '\t' || c == '\n' || c == '\r'
}

/// Characters that can start a name.
pub open spec fn name_start(c: char) -> bool {
    ('a' <= c && c <= 'z') || ('A' <= c && c <= 'Z') || c == '_'
}

/// Characters that can go on a name.
pub open spec fn name_part(c: char) -> bool {
    name_start(c) || ('0' <= c && c <= '9')
}

fn is_blank(c: char) -> (r: bool)
    ensures
        r == blank(c),
{
    c == ' ' || c == '\t' || c == '\n' || c == '\r'
}

fn is_name_start(c: char) -> (r: bool)
    ensures
        r == name_start(c),
{
    ('a' <= c && c <= 'z') || ('A' <= c && c <= 'Z') || c == '_'
}

fn is_name_part(c: char) -> (r: bool)
    ensures
        r == name_part(c),
{
    is_name_start(c) || ('0' <= c && c <= '9')
}

/// The kinds of tokens.
#[derive(Clone, Copy, Debug, PartialEq, Eq, Structural)]
pub enum TokenKind {
    /// A name of an atom.
    Name,
    /// The unit one: `1` or `one`.
    One,
    /// The unit bottom: `bot` or `bottom`.
    Bottom,
    /// The unit top: `top` or `⊤`.
    Top,
    /// The unit zero: `0` or `zero`.
    Zero,
    /// Tensor: `*` or `⊗`.
    Tensor,
    /// Par: `|` or `⅋`.
    Par,
    /// Linear implication: `-o` or `⊸`.
    Lolli,
    /// With: `&`.
    With,
    /// Plus: `+` or `⊕`.
    Plus,
    /// Of course: `!`.
    Bang,
    /// Why not: `?`.
    WhyNot,
    /// Negation, after a formula: `^`.
    Caret,
    /// `⊥`: negation after a formula, the unit bottom elsewhere.
    Perp,
    /// `(`.
    Open,
    /// `)`.
    Close,
    /// `,`.
    Comma,
    /// The turnstile: `|-` or `⊢`.
    Turnstile,
}

/// A token: its kind and the characters of the text that it spans, from
/// `start` up to `end`.
#[derive(Clone, Copy, Debug, PartialEq, Eq, Structural)]
pub struct Token {
    /// What the token is.
    pub kind: TokenKind,
    /// Index of its first character.
    pub start: usize,
    /// Index after its last character.
    pub end: usize,
}

/// The mathematical model of a token: its kind and its text.
pub ghost struct SpecToken {
    pub kind: TokenKind,
    pub text: Seq<char>,
}

/// The model of a token of the text `s`.
pub open spec fn token_model(s: Seq<char>, t: Token) -> SpecToken {
    SpecToken { kind: t.kind, text: s.subrange(t.start as int, t.end as int) }
}

/// The models of the tokens of the text `s`, in order.
pub open spec fn tokens_model(s: Seq<char>, ts: Seq<Token>) -> Seq<SpecToken> {
    Seq::new(ts.len(), |k: int| token_model(s, ts[k]))
}

/// Whether every token spans at least one character of the text.
pub open spec fn spans_within(s: Seq<char>, ts: Seq<Token>) -> bool {
    forall|k: int| 0 <= k < ts.len() ==> (#[trigger] ts[k]).start < ts[k].end <= s.len()
}

/// The length of the run of name characters at the start of `w`, counted from
/// `n` on.
pub open spec fn word_len(w: Seq<char>, n: nat) -> nat
    decreases w.len() - n,
{
    if n < w.len() && name_part(w[n as int]) {
        word_len(w, n + 1)
    } else {
        n
    }
}

/// The kind of a word: a unit for `one`, `bot`, `bottom`, `top` and `zero`, a
/// name for every other word.
pub open spec fn word_kind(w: Seq<char>) -> TokenKind {
    if w == seq!['o', 'n', 'e'] {
        TokenKind::One
    } else if w == seq!['b', 'o', 't'] || w == seq!['b', 'o', 't', 't', 'o', 'm'] {
        TokenKind::Bottom
    } else if w == seq!['t', 'o', 'p'] {
        TokenKind::Top
    } else if w == seq!['z', 'e', 'r', 'o'] {
        TokenKind::Zero
    } else {
        TokenKind::Name
    }
}

/// The kind of the token of one character that `c` is, if it is one.
pub open spec fn sign_kind(c: char) -> Option<TokenKind> {
    if c == '(' {
        Some(TokenKind::Open)
    } else if c == ')' {
        Some(TokenKind::Close)
    } else if c == ',' {
        Some(TokenKind::Comma)
    } else if c == '*' || c == '⊗' {
        Some(TokenKind::Tensor)
    } else if c == '⅋' {
        Some(TokenKind::Par)
    } else if c == '⊸' {
        Some(TokenKind::Lolli)
    } else if c == '&' {
        Some(TokenKind::With)
    } else if c == '+' || c == '⊕' {
        Some(TokenKind::Plus)
    } else if c == '!' {
        Some(TokenKind::Bang)
    } else if c == '?' {
        Some(TokenKind::WhyNot)
    } else if c == '^' {
        Some(TokenKind::Caret)
    } else if c == '⊥' {
        Some(TokenKind::Perp)
    } else if c == '⊤' {
        Some(TokenKind::Top)
    } else if c == '⊢' {
        Some(TokenKind::Turnstile)
    } else if c == '1' {
        Some(TokenKind::One)
    } else if c == '0' {
        Some(TokenKind::Zero)
    } else {
        None
    }
}

/// The kind and the length of the token at the start of `w`, or `None` where
/// no token starts with the first character. A word is as long as it can be;
/// `|-` is the turnstile and a `|` before anything else is par; `-` must come
/// before `o`.
pub open spec fn first_token(w: Seq<char>) -> Option<(TokenKind, nat)>
    recommends
        w.len() > 0,
{
    let c = w[0];
    if name_start(c) {
        let n = word_len(w, 1);
        Some((word_kind(w.take(n as int)), n))
    } else if c == '|' {
        if w.len() > 1 && w[1] == '-' {
            Some((TokenKind::Turnstile, 2))
        } else {
            Some((TokenKind::Par, 1))
        }
    } else if c == '-' {
        if w.len() > 1 && w[1] == 'o' {
            Some((TokenKind::Lolli, 2))
        } else {
            None
        }
    } else {
        match sign_kind(c) {
            Some(kind) => Some((kind, 1)),
            None => None,
        }
    }
}

/// The tokens `ts` before the tokens `rest`.
pub open spec fn before(ts: Seq<SpecToken>, rest: Result<Seq<SpecToken>, char>) -> Result<
    Seq<SpecToken>,
    char,
> {
    match rest {
        Ok(more) => Ok(ts + more),
        Err(c) => Err(c),
    }
}

/// The tokens of a text, or the first character that starts no token. Blank
/// characters separate tokens and are skipped.
pub open spec fn lex(w: Seq<char>) -> Result<Seq<SpecToken>, char>
    decreases w.len(),
{
    if w.len() == 0 {
        Ok(Seq::empty())
    } else if blank(w[0]) {
        lex(w.skip(1))
    } else {
        match first_token(w) {
            Some((kind, n)) => if 0 < n <= w.len() {
                before(seq![SpecToken { kind, text: w.take(n as int) }], lex(w.skip(n as int)))
            } else {
                Err(w[0])
            },
            None => Err(w[0]),
        }
    }
}

/// The run of name characters from `n` on ends between `n` and the end of the
/// text.
pub proof fn lemma_word_len_bounds(w: Seq<char>, n: nat)
    requires
        n <= w.len(),
    ensures
        n <= word_len(w, n) <= w.len(),
    decreases w.len() - n,
{
    if n < w.len() && name_part(w[n as int]) {
        lemma_word_len_bounds(w, n + 1);
    }
}

/// A token has at least one character and lies within the text.
pub proof fn lemma_first_token_bounds(w: Seq<char>)
    requires
        w.len() > 0,
    ensures
        first_token(w) matches Some((_, n)) ==> 0 < n <= w.len(),
{
    lemma_word_len_bounds(w, 1);
}

/// Whether the characters from `start` on are those of `word`.
fn spells(chars: &Vec<char>, start: usize, end: usize, word: &Vec<char>) -> (r: bool)
    requires
        start <= end <= chars.len(),
    ensures
        r == (chars@.subrange(start as int, end as int) == word@),
{
    if end - start != word.len() {
        return false;
    }
    let ghost text = chars@.subrange(start as int, end as int);
    let mut k: usize = 0;
    while k < word.len()
        invariant
            start <= end <= chars.len(),
            end - start == word.len(),
            k <= word.len(),
            text == chars@.subrange(start as int, end as int),
            forall|j: int| 0 <= j < k ==> text[j] == word[j],
        decreases word.len() - k,
    {
        if chars[start + k] != word[k] {
            assert(text[k as int] != word@[k as int]);
            return false;
        }
        k = k + 1;
    }
    assert(text =~= word@);
    true
}

/// The kind of the word that the characters from `start` up to `end` spell.
fn kind_of_word(chars: &Vec<char>, start: usize, end: usize) -> (r: TokenKind)
    requires
        start <= end <= chars.len(),
    ensures
        r == word_kind(chars@.subrange(start as int, end as int)),
{
    if spells(chars, start, end, &vec!['o', 'n', 'e']) {
        TokenKind::One
    } else if spells(chars, start, end, &vec!['b', 'o', 't']) || spells(
        chars,
        start,
        end,
        &vec!['b', 'o', 't', 't', 'o', 'm'],
    ) {
        TokenKind::Bottom
    } else if spells(chars, start, end, &vec!['t', 'o', 'p']) {
        TokenKind::Top
    } else if spells(chars, start, end, &vec!['z', 'e', 'r', 'o']) {
        TokenKind::Zero
    } else {
        TokenKind::Name
    }
}

/// The kind of the token of one character that `c` is, if it is one.
fn kind_of_sign(c: char) -> (r: Option<TokenKind>)
    ensures
        r == sign_kind(c),
{
    if c == '(' {
        Some(TokenKind::Open)
    } else if c == ')' {
        Some(TokenKind::Close)
    } else if c == ',' {
        Some(TokenKind::Comma)
    } else if c == '*' || c == '⊗' {
        Some(TokenKind::Tensor)
    } else if c == '⅋' {
        Some(TokenKind::Par)
    } else if c == '⊸' {
        Some(TokenKind::Lolli)
    } else if c == '&' {
        Some(TokenKind::With)
    } else if c == '+' || c == '⊕' {
        Some(TokenKind::Plus)
    } else if c == '!' {
        Some(TokenKind::Bang)
    } else if c == '?' {
        Some(TokenKind::WhyNot)
    } else if c == '^' {
        Some(TokenKind::Caret)
    } else if c == '⊥' {
        Some(TokenKind::Perp)
    } else if c == '⊤' {
        Some(TokenKind::Top)
    } else if c == '⊢' {
        Some(TokenKind::Turnstile)
    } else if c == '1' {
        Some(TokenKind::One)
    } else if c == '0' {
        Some(TokenKind::Zero)
    } else {
        None
    }
}

/// Reads the token that starts at `i`.
fn read_token(chars: &Vec<char>, i: usize) -> (r: Option<Token>)
    requires
        i < chars.len(),
    ensures
        match r {
            Some(t) => t.start == i && i < t.end <= chars.len() && first_token(
                chars@.skip(i as int),
            ) == Some((t.kind, (t.end - i) as nat)),
            None => first_token(chars@.skip(i as int)) is None,
        },
{
    let ghost w = chars@.skip(i as int);
    proof {
        lemma_first_token_bounds(w);
    }
    let c = chars[i];
    if is_name_start(c) {
        let mut j: usize = i + 1;
        while j < chars.len() && is_name_part(chars[j])
            invariant
                i < j <= chars.len(),
                w == chars@.skip(i as int),
                word_len(w, (j - i) as nat) == word_len(w, 1),
            decreases chars.len() - j,
        {
            assert(w[j - i] == chars[j as int]);
            j = j + 1;
        }
        proof {
            if j < chars.len() {
                assert(w[j - i] == chars[j as int]);
            }
            assert(w.take(j - i) == chars@.subrange(i as int, j as int));
        }
        Some(Token { kind: kind_of_word(chars, i, j), start: i, end: j })
    } else if c == '|' {
        if i + 1 < chars.len() && chars[i + 1] == '-' {
            Some(Token { kind: TokenKind::Turnstile, start: i, end: i + 2 })
        } else {
            Some(Token { kind: TokenKind::Par, start: i, end: i + 1 })
        }
    } else if c == '-' {
        if i + 1 < chars.len() && chars[i + 1] == 'o' {
            Some(Token { kind: TokenKind::Lolli, start: i, end: i + 2 })
        } else {
            None
        }
    } else {
        match kind_of_sign(c) {
            Some(kind) => Some(Token { kind, start: i, end: i + 1 }),
            None => None,
        }
    }
}

/// Splits a text into its tokens. Fails with the index of the first character
/// that starts no token.
pub fn tokenize(chars: &Vec<char>) -> (r: Result<Vec<Token>, usize>)
    ensures
        match r {
            Ok(ts) => spans_within(chars@, ts@) && lex(chars@) == Ok::<Seq<SpecToken>, char>(
                tokens_model(chars@, ts@),
            ),
            Err(i) => i < chars.len() && lex(chars@) == Err::<Seq<SpecToken>, char>(
                chars[i as int],
            ),
        },
{
    let mut out: Vec<Token> = Vec::new();
    let mut i: usize = 0;
    assert(chars@.skip(0) == chars@);
    while i < chars.len()
        invariant
            i <= chars.len(),
            spans_within(chars@, out@),
            lex(chars@) == before(tokens_model(chars@, out@), lex(chars@.skip(i as int))),
        decreases chars.len() - i,
    {
        let ghost w = chars@.skip(i as int);
        assert(w[0] == chars[i as int]);
        if is_blank(chars[i]) {
            assert(w.skip(1) == chars@.skip(i + 1));
            i = i + 1;
        } else {
            match read_token(chars, i) {
                Some(t) => {
                    proof {
                        let n = (t.end - i) as int;
                        assert(w.skip(n) == chars@.skip(t.end as int));
                        assert(w.take(n) == chars@.subrange(i as int, t.end as int));
                        let done = tokens_model(chars@, out@);
                        let one = seq![token_model(chars@, t)];
                        assert(tokens_model(chars@, out@.push(t)) == done + one);
                        if let Ok(more) = lex(chars@.skip(t.end as int)) {
                            assert(done + (one + more) == (done + one) + more);
                        }
                    }
                    out.push(t);
                    i = t.end;
                },
                None => {
                    return Err(i);
                },
            }
        }
    }
    proof {
        let done = tokens_model(chars@, out@);
        assert(done + Seq::<SpecToken>::empty() == done);
    }
    Ok(out)
}

} // verus!
