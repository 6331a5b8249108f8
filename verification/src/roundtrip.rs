//! What is written out is read back: the text of a formula in plain keyboard
//! characters parses to the formula.

use crate::formula::{infix_text, symbol_text, Notation, SpecFormula, Symbol};
use crate::lexer::{
    before, lex, name_part, name_start, sign_kind, word_kind, word_len, SpecToken, TokenKind,
};
use crate::parse::{
    at, chain, chain_rest, formula_of, implication, joined, primary, sign_of, unary,
    SpecParseError,
};
use vstd::prelude::*;

verus! {

/// A word that names an atom: it starts as a name starts, goes on in name
/// characters, and is not the word of a unit.
pub open spec fn atom_name(w: Seq<char>) -> bool {
    &&& w.len() >= 1
    &&& name_start(w[0])
    &&& forall|k: int| 0 <= k < w.len() ==> name_part(#[trigger] w[k])
    &&& word_kind(w) == TokenKind::Name
}

/// Whether every atom of the formula has a name that can be read back.
pub open spec fn readable(f: SpecFormula) -> bool
    decreases f,
{
    match f {
        SpecFormula::Atom(a) => atom_name(a),
        SpecFormula::NegAtom(a) => atom_name(a),
        SpecFormula::Tensor(a, b) => readable(*a) && readable(*b),
        SpecFormula::Par(a, b) => readable(*a) && readable(*b),
        SpecFormula::With(a, b) => readable(*a) && readable(*b),
        SpecFormula::Plus(a, b) => readable(*a) && readable(*b),
        SpecFormula::Lolli(a, b) => readable(*a) && readable(*b),
        SpecFormula::OfCourse(a) => readable(*a),
        SpecFormula::WhyNot(a) => readable(*a),
        _ => true,
    }
}

/// The text of a formula in plain keyboard characters.
pub open spec fn ascii(f: SpecFormula) -> Seq<char> {
    f.render(Notation::Ascii)
}

/// The token of a sign.
pub open spec fn sign(kind: TokenKind, symbol: Symbol) -> SpecToken {
    SpecToken { kind, text: symbol_text(Notation::Ascii, symbol) }
}

/// The tokens between which a binary formula stands.
pub open spec fn opening() -> SpecToken {
    SpecToken { kind: TokenKind::Open, text: "("@ }
}

/// The token that ends a binary formula.
pub open spec fn closing() -> SpecToken {
    SpecToken { kind: TokenKind::Close, text: ")"@ }
}

/// The tokens of a binary formula.
pub open spec fn between(left: Seq<SpecToken>, op: SpecToken, right: Seq<SpecToken>) -> Seq<
    SpecToken,
> {
    seq![opening()] + left + seq![op] + right + seq![closing()]
}

/// The tokens of the text of a formula in plain keyboard characters.
pub open spec fn tokens_of(f: SpecFormula) -> Seq<SpecToken>
    decreases f,
{
    match f {
        SpecFormula::Atom(a) => seq![SpecToken { kind: TokenKind::Name, text: a }],
        SpecFormula::NegAtom(a) => seq![
            SpecToken { kind: TokenKind::Name, text: a },
            sign(TokenKind::Caret, Symbol::Dual),
        ],
        SpecFormula::Tensor(a, b) => between(
            tokens_of(*a),
            sign(TokenKind::Tensor, Symbol::Tensor),
            tokens_of(*b),
        ),
        SpecFormula::Par(a, b) => between(
            tokens_of(*a),
            sign(TokenKind::Par, Symbol::Par),
            tokens_of(*b),
        ),
        SpecFormula::Lolli(a, b) => between(
            tokens_of(*a),
            sign(TokenKind::Lolli, Symbol::Lolli),
            tokens_of(*b),
        ),
        SpecFormula::With(a, b) => between(
            tokens_of(*a),
            sign(TokenKind::With, Symbol::With),
            tokens_of(*b),
        ),
        SpecFormula::Plus(a, b) => between(
            tokens_of(*a),
            sign(TokenKind::Plus, Symbol::Plus),
            tokens_of(*b),
        ),
        SpecFormula::OfCourse(a) => seq![sign(TokenKind::Bang, Symbol::OfCourse)] + tokens_of(*a),
        SpecFormula::WhyNot(a) => seq![sign(TokenKind::WhyNot, Symbol::WhyNot)] + tokens_of(*a),
        SpecFormula::One => seq![sign(TokenKind::One, Symbol::One)],
        SpecFormula::Bottom => seq![sign(TokenKind::Bottom, Symbol::Bottom)],
        SpecFormula::Top => seq![sign(TokenKind::Top, Symbol::Top)],
        SpecFormula::Zero => seq![sign(TokenKind::Zero, Symbol::Zero)],
    }
}

/// The characters of the signs of the plain notation.
pub proof fn lemma_signs()
    ensures
        "("@ == seq!['('],
        ")"@ == seq![')'],
        " "@ == seq![' '],
        symbol_text(Notation::Ascii, Symbol::Dual) == seq!['^'],
        symbol_text(Notation::Ascii, Symbol::Tensor) == seq!['*'],
        symbol_text(Notation::Ascii, Symbol::Par) == seq!['|'],
        symbol_text(Notation::Ascii, Symbol::Lolli) == seq!['-', 'o'],
        symbol_text(Notation::Ascii, Symbol::With) == seq!['&'],
        symbol_text(Notation::Ascii, Symbol::Plus) == seq!['+'],
        symbol_text(Notation::Ascii, Symbol::OfCourse) == seq!['!'],
        symbol_text(Notation::Ascii, Symbol::WhyNot) == seq!['?'],
        symbol_text(Notation::Ascii, Symbol::One) == seq!['1'],
        symbol_text(Notation::Ascii, Symbol::Zero) == seq!['0'],
        symbol_text(Notation::Ascii, Symbol::Bottom) == seq!['b', 'o', 't'],
        symbol_text(Notation::Ascii, Symbol::Top) == seq!['t', 'o', 'p'],
{
    reveal_strlit("(");
    reveal_strlit(")");
    reveal_strlit(" ");
    reveal_strlit("^");
    reveal_strlit("*");
    reveal_strlit("|");
    reveal_strlit("-o");
    reveal_strlit("&");
    reveal_strlit("+");
    reveal_strlit("!");
    reveal_strlit("?");
    reveal_strlit("1");
    reveal_strlit("0");
    reveal_strlit("bot");
    reveal_strlit("top");
    assert("("@ =~= seq!['(']);
    assert(")"@ =~= seq![')']);
    assert(" "@ =~= seq![' ']);
    assert("^"@ =~= seq!['^']);
    assert("*"@ =~= seq!['*']);
    assert("|"@ =~= seq!['|']);
    assert("-o"@ =~= seq!['-', 'o']);
    assert("&"@ =~= seq!['&']);
    assert("+"@ =~= seq!['+']);
    assert("!"@ =~= seq!['!']);
    assert("?"@ =~= seq!['?']);
    assert("1"@ =~= seq!['1']);
    assert("0"@ =~= seq!['0']);
    assert("bot"@ =~= seq!['b', 'o', 't']);
    assert("top"@ =~= seq!['t', 'o', 'p']);
}

/// Whether a text can follow a word: it is empty, or it starts with a
/// character that does not go on a name.
pub open spec fn boundary(rest: Seq<char>) -> bool {
    rest.len() == 0 || !name_part(rest[0])
}

/// Tokens before tokens before a rest are the tokens together before the rest.
pub proof fn lemma_before_before(
    first: Seq<SpecToken>,
    second: Seq<SpecToken>,
    rest: Result<Seq<SpecToken>, char>,
)
    ensures
        before(first, before(second, rest)) == before(first + second, rest),
{
    if let Ok(more) = rest {
        assert(first + (second + more) == (first + second) + more);
    }
}

/// A sign of one character is read as its token.
pub proof fn lemma_lex_sign(c: char, kind: TokenKind, rest: Seq<char>)
    requires
        sign_kind(c) == Some(kind),
    ensures
        lex(seq![c] + rest) == before(seq![SpecToken { kind, text: seq![c] }], lex(rest)),
{
    let w = seq![c] + rest;
    assert(w[0] == c);
    assert(w.take(1) == seq![c]);
    assert(w.skip(1) == rest);
}

/// A space is skipped.
pub proof fn lemma_lex_space(rest: Seq<char>)
    ensures
        lex(seq![' '] + rest) == lex(rest),
{
    let w = seq![' '] + rest;
    assert(w[0] == ' ');
    assert(w.skip(1) == rest);
}

/// A bar before a space is read as par.
pub proof fn lemma_lex_bar(rest: Seq<char>)
    requires
        rest.len() == 0 || rest[0] != '-',
    ensures
        lex(seq!['|'] + rest) == before(
            seq![SpecToken { kind: TokenKind::Par, text: seq!['|'] }],
            lex(rest),
        ),
{
    let w = seq!['|'] + rest;
    assert(w[0] == '|');
    if rest.len() > 0 {
        assert(w[1] == rest[0]);
    }
    assert(w.take(1) == seq!['|']);
    assert(w.skip(1) == rest);
}

/// The sign of linear implication is read as its token.
pub proof fn lemma_lex_lolli(rest: Seq<char>)
    ensures
        lex(seq!['-', 'o'] + rest) == before(
            seq![SpecToken { kind: TokenKind::Lolli, text: seq!['-', 'o'] }],
            lex(rest),
        ),
{
    let w = seq!['-', 'o'] + rest;
    assert(w[0] == '-');
    assert(w[1] == 'o');
    assert(w.take(2) == seq!['-', 'o']);
    assert(w.skip(2) == rest);
}

/// A run of name characters before a boundary is as long as the word.
proof fn lemma_word_len(word: Seq<char>, rest: Seq<char>, n: nat)
    requires
        forall|k: int| 0 <= k < word.len() ==> name_part(#[trigger] word[k]),
        boundary(rest),
        n <= word.len(),
    ensures
        word_len(word + rest, n) == word.len(),
    decreases word.len() - n,
{
    let w = word + rest;
    if n < word.len() {
        assert(w[n as int] == word[n as int]);
        lemma_word_len(word, rest, n + 1);
    } else if rest.len() > 0 {
        assert(w[n as int] == rest[0]);
    }
}

/// A word before a boundary is read as one token.
pub proof fn lemma_lex_word(word: Seq<char>, rest: Seq<char>)
    requires
        word.len() >= 1,
        name_start(word[0]),
        forall|k: int| 0 <= k < word.len() ==> name_part(#[trigger] word[k]),
        boundary(rest),
    ensures
        lex(word + rest) == before(
            seq![SpecToken { kind: word_kind(word), text: word }],
            lex(rest),
        ),
{
    let w = word + rest;
    assert(w[0] == word[0]);
    lemma_word_len(word, rest, 1);
    assert(w.take(word.len() as int) == word);
    assert(w.skip(word.len() as int) == rest);
}

/// What follows the right side of a binary formula: the closing parenthesis
/// and the rest.
pub open spec fn after_right(rest: Seq<char>) -> Seq<char> {
    seq![')'] + rest
}

/// What follows the left side of a binary formula: a space, the sign, a
/// space, the right side and what follows it.
pub open spec fn after_left(op: Seq<char>, right: Seq<char>, rest: Seq<char>) -> Seq<char> {
    seq![' '] + (op + (seq![' '] + (right + after_right(rest))))
}

/// The text of a binary formula before a rest is read as the tokens of the
/// formula before the tokens of the rest, where its sides and its sign are.
proof fn lemma_lex_between(
    left: Seq<char>,
    left_tokens: Seq<SpecToken>,
    op: Seq<char>,
    op_token: SpecToken,
    right: Seq<char>,
    right_tokens: Seq<SpecToken>,
    rest: Seq<char>,
)
    requires
        lex(left + after_left(op, right, rest)) == before(
            left_tokens,
            lex(after_left(op, right, rest)),
        ),
        lex(right + after_right(rest)) == before(right_tokens, lex(after_right(rest))),
        lex(op + (seq![' '] + (right + after_right(rest)))) == before(
            seq![op_token],
            lex(seq![' '] + (right + after_right(rest))),
        ),
    ensures
        lex(infix_text(left, op, right) + rest) == before(
            between(left_tokens, op_token, right_tokens),
            lex(rest),
        ),
{
    lemma_signs();
    let r6 = after_right(rest);
    let r5 = right + r6;
    let r4 = seq![' '] + r5;
    let r3 = op + r4;
    let r2 = after_left(op, right, rest);
    let r1 = left + r2;
    let r0 = seq!['('] + r1;
    assert(infix_text(left, op, right) + rest == r0);
    lemma_lex_sign(')', TokenKind::Close, rest);
    lemma_lex_space(r5);
    lemma_lex_space(r3);
    lemma_lex_sign('(', TokenKind::Open, r1);
    let end = lex(rest);
    lemma_before_before(right_tokens, seq![closing()], end);
    lemma_before_before(seq![op_token], right_tokens + seq![closing()], end);
    lemma_before_before(left_tokens, seq![op_token] + (right_tokens + seq![closing()]), end);
    lemma_before_before(
        seq![opening()],
        left_tokens + (seq![op_token] + (right_tokens + seq![closing()])),
        end,
    );
    assert(seq![opening()] + (left_tokens + (seq![op_token] + (right_tokens + seq![closing()])))
        == between(left_tokens, op_token, right_tokens));
}

/// The text of a readable formula before a boundary is read as the tokens of
/// the formula, before the tokens of what follows.
pub proof fn lemma_lex_render(f: SpecFormula, rest: Seq<char>)
    requires
        readable(f),
        boundary(rest),
    ensures
        lex(ascii(f) + rest) == before(tokens_of(f), lex(rest)),
    decreases f,
{
    lemma_signs();
    match f {
        SpecFormula::Atom(a) => {
            lemma_lex_word(a, rest);
        },
        SpecFormula::NegAtom(a) => {
            let tail = seq!['^'] + rest;
            assert(ascii(f) + rest == a + tail);
            assert(tail[0] == '^');
            lemma_lex_word(a, tail);
            lemma_lex_sign('^', TokenKind::Caret, rest);
            let name = seq![SpecToken { kind: TokenKind::Name, text: a }];
            let caret = seq![sign(TokenKind::Caret, Symbol::Dual)];
            lemma_before_before(name, caret, lex(rest));
            assert(name + caret == tokens_of(f));
        },
        SpecFormula::Tensor(a, b) => {
            let op = seq!['*'];
            lemma_lex_render(*a, after_left(op, ascii(*b), rest));
            lemma_lex_render(*b, after_right(rest));
            lemma_lex_sign('*', TokenKind::Tensor, seq![' '] + (ascii(*b) + after_right(rest)));
            lemma_lex_between(
                ascii(*a),
                tokens_of(*a),
                op,
                sign(TokenKind::Tensor, Symbol::Tensor),
                ascii(*b),
                tokens_of(*b),
                rest,
            );
        },
        SpecFormula::Par(a, b) => {
            let op = seq!['|'];
            lemma_lex_render(*a, after_left(op, ascii(*b), rest));
            lemma_lex_render(*b, after_right(rest));
            let tail = seq![' '] + (ascii(*b) + after_right(rest));
            assert(tail[0] == ' ');
            lemma_lex_bar(tail);
            lemma_lex_between(
                ascii(*a),
                tokens_of(*a),
                op,
                sign(TokenKind::Par, Symbol::Par),
                ascii(*b),
                tokens_of(*b),
                rest,
            );
        },
        SpecFormula::Lolli(a, b) => {
            let op = seq!['-', 'o'];
            lemma_lex_render(*a, after_left(op, ascii(*b), rest));
            lemma_lex_render(*b, after_right(rest));
            lemma_lex_lolli(seq![' '] + (ascii(*b) + after_right(rest)));
            lemma_lex_between(
                ascii(*a),
                tokens_of(*a),
                op,
                sign(TokenKind::Lolli, Symbol::Lolli),
                ascii(*b),
                tokens_of(*b),
                rest,
            );
        },
        SpecFormula::With(a, b) => {
            let op = seq!['&'];
            lemma_lex_render(*a, after_left(op, ascii(*b), rest));
            lemma_lex_render(*b, after_right(rest));
            lemma_lex_sign('&', TokenKind::With, seq![' '] + (ascii(*b) + after_right(rest)));
            lemma_lex_between(
                ascii(*a),
                tokens_of(*a),
                op,
                sign(TokenKind::With, Symbol::With),
                ascii(*b),
                tokens_of(*b),
                rest,
            );
        },
        SpecFormula::Plus(a, b) => {
            let op = seq!['+'];
            lemma_lex_render(*a, after_left(op, ascii(*b), rest));
            lemma_lex_render(*b, after_right(rest));
            lemma_lex_sign('+', TokenKind::Plus, seq![' '] + (ascii(*b) + after_right(rest)));
            lemma_lex_between(
                ascii(*a),
                tokens_of(*a),
                op,
                sign(TokenKind::Plus, Symbol::Plus),
                ascii(*b),
                tokens_of(*b),
                rest,
            );
        },
        SpecFormula::OfCourse(a) => {
            let tail = ascii(*a) + rest;
            assert(ascii(f) + rest == seq!['!'] + tail);
            lemma_lex_sign('!', TokenKind::Bang, tail);
            lemma_lex_render(*a, rest);
            lemma_before_before(
                seq![sign(TokenKind::Bang, Symbol::OfCourse)],
                tokens_of(*a),
                lex(rest),
            );
        },
        SpecFormula::WhyNot(a) => {
            let tail = ascii(*a) + rest;
            assert(ascii(f) + rest == seq!['?'] + tail);
            lemma_lex_sign('?', TokenKind::WhyNot, tail);
            lemma_lex_render(*a, rest);
            lemma_before_before(
                seq![sign(TokenKind::WhyNot, Symbol::WhyNot)],
                tokens_of(*a),
                lex(rest),
            );
        },
        SpecFormula::One => {
            lemma_lex_sign('1', TokenKind::One, rest);
        },
        SpecFormula::Zero => {
            lemma_lex_sign('0', TokenKind::Zero, rest);
        },
        SpecFormula::Bottom => {
            lemma_lex_word(seq!['b', 'o', 't'], rest);
        },
        SpecFormula::Top => {
            lemma_lex_word(seq!['t', 'o', 'p'], rest);
        },
    }
}

/// Whether the token at `p` is none of the signs of the levels up to `level`.
pub open spec fn no_sign(ts: Seq<SpecToken>, p: nat, level: nat) -> bool {
    forall|m: nat| 1 <= m <= level ==> !at(ts, p, #[trigger] sign_of(m))
}

/// Whether the token at `p` is no negation suffix.
pub open spec fn no_suffix(ts: Seq<SpecToken>, p: nat) -> bool {
    !at(ts, p, TokenKind::Caret) && !at(ts, p, TokenKind::Perp)
}

/// The level of the sign of a binary connective but linear implication, or
/// zero for another kind of token.
pub open spec fn level_of(kind: TokenKind) -> nat {
    match kind {
        TokenKind::With => 1,
        TokenKind::Plus => 2,
        TokenKind::Tensor => 3,
        TokenKind::Par => 4,
        _ => 0,
    }
}

/// A formula with its prefixes and suffix that is followed by no sign of the
/// levels up to `level` is the whole chain of that level.
proof fn lemma_chain_passes(ts: Seq<SpecToken>, q: nat, level: nat, x: SpecFormula, r: nat)
    requires
        unary(ts, q) == Ok::<(SpecFormula, nat), SpecParseError>((x, r)),
        q < r <= ts.len(),
        no_sign(ts, r, level),
    ensures
        chain(ts, q, level) == Ok::<(SpecFormula, nat), SpecParseError>((x, r)),
    decreases level,
{
    if level > 0 {
        lemma_chain_passes(ts, q, (level - 1) as nat, x, r);
        assert(!at(ts, r, sign_of(level)));
        assert(chain_rest(ts, r, level, x) == Ok::<
            (SpecFormula, nat),
            SpecParseError,
        >((x, r)));
    }
}

/// A chain that is followed by no sign of the levels above its own, up to
/// `top`, is the whole chain of the level `top`.
proof fn lemma_chain_lifts(
    ts: Seq<SpecToken>,
    q: nat,
    level: nat,
    top: nat,
    x: SpecFormula,
    r: nat,
)
    requires
        chain(ts, q, level) == Ok::<(SpecFormula, nat), SpecParseError>((x, r)),
        q < r <= ts.len(),
        level <= top,
        no_sign(ts, r, top),
    ensures
        chain(ts, q, top) == Ok::<(SpecFormula, nat), SpecParseError>((x, r)),
    decreases top - level,
{
    if level < top {
        lemma_chain_lifts(ts, q, level, (top - 1) as nat, x, r);
        assert(!at(ts, r, sign_of(top)));
        assert(chain_rest(ts, r, top, x) == Ok::<
            (SpecFormula, nat),
            SpecParseError,
        >((x, r)));
    }
}

/// The formula that a binary sign makes of two sides.
pub open spec fn combined(kind: TokenKind, a: SpecFormula, b: SpecFormula) -> SpecFormula {
    match kind {
        TokenKind::With => SpecFormula::With(Box::new(a), Box::new(b)),
        TokenKind::Plus => SpecFormula::Plus(Box::new(a), Box::new(b)),
        TokenKind::Tensor => SpecFormula::Tensor(Box::new(a), Box::new(b)),
        TokenKind::Par => SpecFormula::Par(Box::new(a), Box::new(b)),
        _ => SpecFormula::Lolli(Box::new(a), Box::new(b)),
    }
}

/// Two formulas around a binary sign, in parentheses, are read as the binary
/// formula.
proof fn lemma_binary_reads(
    ts: Seq<SpecToken>,
    pos: nat,
    op: TokenKind,
    a: SpecFormula,
    b: SpecFormula,
    p1: nat,
    p2: nat,
)
    requires
        at(ts, pos, TokenKind::Open),
        unary(ts, pos + 1) == Ok::<(SpecFormula, nat), SpecParseError>((a, p1)),
        pos + 1 < p1,
        at(ts, p1, op),
        level_of(op) > 0 || op == TokenKind::Lolli,
        unary(ts, p1 + 1) == Ok::<(SpecFormula, nat), SpecParseError>((b, p2)),
        p1 + 1 < p2,
        at(ts, p2, TokenKind::Close),
    ensures
        primary(ts, pos) == Ok::<(SpecFormula, nat), SpecParseError>(
            (combined(op, a, b), p2 + 1),
        ),
{
    let start = pos + 1;
    let whole = combined(op, a, b);
    assert(no_sign(ts, p2, 4)) by {
        assert forall|m: nat| 1 <= m <= 4 implies !at(ts, p2, #[trigger] sign_of(m)) by {}
    }
    if op == TokenKind::Lolli {
        assert(no_sign(ts, p1, 4)) by {
            assert forall|m: nat| 1 <= m <= 4 implies !at(ts, p1, #[trigger] sign_of(m)) by {}
        }
        lemma_chain_passes(ts, start, 4, a, p1);
        lemma_chain_passes(ts, p1 + 1, 4, b, p2);
        assert(implication(ts, p1 + 1) == Ok::<(SpecFormula, nat), SpecParseError>(
            (b, p2),
        ));
        assert(implication(ts, start) == Ok::<(SpecFormula, nat), SpecParseError>(
            (whole, p2),
        ));
    } else {
        let level = level_of(op);
        let below = (level - 1) as nat;
        assert(sign_of(level) == op);
        assert(no_sign(ts, p1, below)) by {
            assert forall|m: nat| 1 <= m <= below implies !at(ts, p1, #[trigger] sign_of(m)) by {}
        }
        assert(no_sign(ts, p2, below)) by {
            assert forall|m: nat| 1 <= m <= below implies !at(ts, p2, #[trigger] sign_of(m)) by {}
        }
        lemma_chain_passes(ts, start, below, a, p1);
        lemma_chain_passes(ts, p1 + 1, below, b, p2);
        assert(joined(level, a, b) == whole);
        assert(chain_rest(ts, p2, level, whole) == Ok::<
            (SpecFormula, nat),
            SpecParseError,
        >((whole, p2)));
        assert(chain_rest(ts, p1, level, a) == Ok::<
            (SpecFormula, nat),
            SpecParseError,
        >((whole, p2)));
        assert(chain(ts, start, level) == Ok::<(SpecFormula, nat), SpecParseError>(
            (whole, p2),
        ));
        lemma_chain_lifts(ts, start, level, 4, whole, p2);
        assert(implication(ts, start) == Ok::<(SpecFormula, nat), SpecParseError>(
            (whole, p2),
        ));
    }
}

/// The text of every formula has a token.
pub proof fn lemma_tokens_nonempty(f: SpecFormula)
    ensures
        tokens_of(f).len() >= 1,
    decreases f,
{
}

/// Whether the tokens `ts` hold the tokens of `f` from `pos` on, before a
/// token that is no negation suffix.
pub open spec fn holds(ts: Seq<SpecToken>, pos: nat, f: SpecFormula) -> bool {
    let end = pos + tokens_of(f).len();
    &&& end <= ts.len()
    &&& ts.subrange(pos as int, end as int) == tokens_of(f)
    &&& no_suffix(ts, end)
}

/// The tokens of a formula are read as the formula, with its prefixes and
/// suffix.
proof fn lemma_unary_reads(ts: Seq<SpecToken>, pos: nat, f: SpecFormula)
    requires
        holds(ts, pos, f),
    ensures
        unary(ts, pos) == Ok::<(SpecFormula, nat), SpecParseError>(
            (f, pos + tokens_of(f).len()),
        ),
    decreases f, 1nat,
{
    lemma_signs();
    lemma_tokens_nonempty(f);
    let here = tokens_of(f);
    let end = pos + here.len();
    assert forall|k: int| 0 <= k < here.len() implies ts[pos + k] == #[trigger] here[k] by {
        assert(ts.subrange(pos as int, end as int)[k] == ts[pos + k]);
    }
    assert(ts[pos as int] == here[0]);
    match f {
        SpecFormula::Atom(a) => {
            assert(primary(ts, pos) == Ok::<(SpecFormula, nat), SpecParseError>(
                (f, pos + 1),
            ));
        },
        SpecFormula::NegAtom(a) => {
            assert(ts[pos as int + 1] == here[1]);
            assert(primary(ts, pos) == Ok::<(SpecFormula, nat), SpecParseError>(
                (SpecFormula::Atom(a), pos + 1),
            ));
            assert(at(ts, pos + 1, TokenKind::Caret));
        },
        SpecFormula::Tensor(a, b) => {
            lemma_sides_read(ts, pos, f, *a, *b, sign(TokenKind::Tensor, Symbol::Tensor));
        },
        SpecFormula::Par(a, b) => {
            lemma_sides_read(ts, pos, f, *a, *b, sign(TokenKind::Par, Symbol::Par));
        },
        SpecFormula::Lolli(a, b) => {
            lemma_sides_read(ts, pos, f, *a, *b, sign(TokenKind::Lolli, Symbol::Lolli));
        },
        SpecFormula::With(a, b) => {
            lemma_sides_read(ts, pos, f, *a, *b, sign(TokenKind::With, Symbol::With));
        },
        SpecFormula::Plus(a, b) => {
            lemma_sides_read(ts, pos, f, *a, *b, sign(TokenKind::Plus, Symbol::Plus));
        },
        SpecFormula::OfCourse(a) => {
            let inner = tokens_of(*a);
            assert(ts.subrange(pos as int + 1, end as int) == inner) by {
                assert forall|k: int| 0 <= k < inner.len() implies ts.subrange(
                    pos as int + 1,
                    end as int,
                )[k] == inner[k] by {
                    assert(ts[pos as int + 1 + k] == here[1 + k]);
                }
            }
            lemma_unary_reads(ts, pos + 1, *a);
        },
        SpecFormula::WhyNot(a) => {
            let inner = tokens_of(*a);
            assert(ts.subrange(pos as int + 1, end as int) == inner) by {
                assert forall|k: int| 0 <= k < inner.len() implies ts.subrange(
                    pos as int + 1,
                    end as int,
                )[k] == inner[k] by {
                    assert(ts[pos as int + 1 + k] == here[1 + k]);
                }
            }
            lemma_unary_reads(ts, pos + 1, *a);
        },
        _ => {
            assert(primary(ts, pos) == Ok::<(SpecFormula, nat), SpecParseError>(
                (f, pos + 1),
            ));
        },
    }
}

/// The tokens of a binary formula are read as the formula.
proof fn lemma_sides_read(
    ts: Seq<SpecToken>,
    pos: nat,
    f: SpecFormula,
    a: SpecFormula,
    b: SpecFormula,
    op: SpecToken,
)
    requires
        holds(ts, pos, f),
        tokens_of(f) == between(tokens_of(a), op, tokens_of(b)),
        f == combined(op.kind, a, b),
        level_of(op.kind) > 0 || op.kind == TokenKind::Lolli,
        f == SpecFormula::Tensor(Box::new(a), Box::new(b)) || f == SpecFormula::Par(
            Box::new(a),
            Box::new(b),
        ) || f == SpecFormula::Lolli(Box::new(a), Box::new(b)) || f == SpecFormula::With(
            Box::new(a),
            Box::new(b),
        ) || f == SpecFormula::Plus(Box::new(a), Box::new(b)),
    ensures
        unary(ts, pos) == Ok::<(SpecFormula, nat), SpecParseError>(
            (f, pos + tokens_of(f).len()),
        ),
    decreases f, 0nat,
{
    let left = tokens_of(a);
    let right = tokens_of(b);
    let here = tokens_of(f);
    let end = pos + here.len();
    let p1 = pos + 1 + left.len();
    let p2 = p1 + 1 + right.len();
    lemma_tokens_nonempty(a);
    lemma_tokens_nonempty(b);
    assert(here.len() == left.len() + right.len() + 3);
    assert forall|k: int| 0 <= k < here.len() implies ts[pos + k] == #[trigger] here[k] by {
        assert(ts.subrange(pos as int, end as int)[k] == ts[pos + k]);
    }
    let n = left.len() as int;
    let m = right.len() as int;
    let i0 = pos as int;
    let i1 = p1 as int;
    let i2 = p2 as int;
    assert(ts[i0] == here[0]);
    assert(ts[i1] == here[1 + n]);
    assert(ts[i2] == here[2 + n + m]);
    assert(here[0] == opening());
    assert(here[1 + n] == op);
    assert(here[2 + n + m] == closing());
    assert(ts.subrange(i0 + 1, i1) == left) by {
        assert forall|k: int| 0 <= k < n implies ts.subrange(i0 + 1, i1)[k] == left[k] by {
            assert(ts[i0 + 1 + k] == here[1 + k]);
        }
    }
    assert(ts.subrange(i1 + 1, i2) == right) by {
        assert forall|k: int| 0 <= k < m implies ts.subrange(i1 + 1, i2)[k] == right[k] by {
            assert(ts[i1 + 1 + k] == here[2 + n + k]);
        }
    }
    match f {
        SpecFormula::Tensor(x, y) => {
            lemma_unary_reads(ts, pos + 1, *x);
            lemma_unary_reads(ts, p1 + 1, *y);
        },
        SpecFormula::Par(x, y) => {
            lemma_unary_reads(ts, pos + 1, *x);
            lemma_unary_reads(ts, p1 + 1, *y);
        },
        SpecFormula::Lolli(x, y) => {
            lemma_unary_reads(ts, pos + 1, *x);
            lemma_unary_reads(ts, p1 + 1, *y);
        },
        SpecFormula::With(x, y) => {
            lemma_unary_reads(ts, pos + 1, *x);
            lemma_unary_reads(ts, p1 + 1, *y);
        },
        SpecFormula::Plus(x, y) => {
            lemma_unary_reads(ts, pos + 1, *x);
            lemma_unary_reads(ts, p1 + 1, *y);
        },
        _ => {},
    }
    lemma_binary_reads(ts, pos, op.kind, a, b, p1, p2);
}

/// What is written out is read back: the text of a readable formula in plain
/// keyboard characters parses to the formula.
pub proof fn lemma_parse_render(f: SpecFormula)
    requires
        readable(f),
    ensures
        formula_of(ascii(f)) == Ok::<SpecFormula, SpecParseError>(f),
{
    let none = Seq::<char>::empty();
    lemma_lex_render(f, none);
    assert(ascii(f) + none == ascii(f));
    let ts = tokens_of(f);
    assert(ts + Seq::<SpecToken>::empty() == ts);
    assert(lex(ascii(f)) == Ok::<Seq<SpecToken>, char>(ts));
    lemma_tokens_nonempty(f);
    assert(ts.subrange(0, ts.len() as int) == ts);
    lemma_unary_reads(ts, 0, f);
    assert(no_sign(ts, ts.len(), 4)) by {
        assert forall|m: nat| 1 <= m <= 4 implies !at(ts, ts.len(), #[trigger] sign_of(m)) by {}
    }
    lemma_chain_passes(ts, 0, 4, f, ts.len());
    assert(implication(ts, 0) == Ok::<(SpecFormula, nat), SpecParseError>(
        (f, ts.len()),
    ));
}

} // verus!
