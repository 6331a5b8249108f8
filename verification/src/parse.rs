//! Reading formulas and sequents from text.

use crate::formula::{models, Formula, SpecFormula};
use crate::lexer::{
    characters, lex, spans_within, token_model, tokenize, tokens_model, SpecToken, Token,
    TokenKind,
};
use crate::sequent::TwoSidedSequent;
use vstd::prelude::*;
use vstd::string::*;

verus! {

/// Why a text could not be read.
#[derive(Debug, PartialEq, Eq)]
pub enum ParseError {
    /// A token stands where it cannot. Holds the text of the token.
    UnexpectedToken(String),
    /// A character starts no token. Holds the character.
    UnknownOperator(String),
    /// The text ends where a formula or a sign is needed.
    UnexpectedEnd,
    /// The text holds no token.
    EmptyInput,
}

/// The mathematical model of a [`ParseError`].
pub ghost enum SpecParseError {
    UnexpectedToken(Seq<char>),
    UnknownOperator(Seq<char>),
    UnexpectedEnd,
    EmptyInput,
}

impl View for ParseError {
    type V = SpecParseError;

    open spec fn view(&self) -> SpecParseError {
        match self {
            ParseError::UnexpectedToken(t) => SpecParseError::UnexpectedToken(t@),
            ParseError::UnknownOperator(c) => SpecParseError::UnknownOperator(c@),
            ParseError::UnexpectedEnd => SpecParseError::UnexpectedEnd,
            ParseError::EmptyInput => SpecParseError::EmptyInput,
        }
    }
}

impl SpecParseError {
    /// The message of the error.
    pub open spec fn text(self) -> Seq<char> {
        match self {
            SpecParseError::UnexpectedToken(t) => "Unexpected token: "@ + t,
            SpecParseError::UnknownOperator(c) => "Unknown operator: "@ + c,
            SpecParseError::UnexpectedEnd => "Unexpected end of input"@,
            SpecParseError::EmptyInput => "Empty input"@,
        }
    }
}

impl ParseError {
    /// Writes the message of the error.
    pub fn message(&self) -> (r: String)
        ensures
            r@ == self@.text(),
    {
        match self {
            ParseError::UnexpectedToken(t) => {
                let mut out = String::from_str("Unexpected token: ");
                out.append(t.as_str());
                out
            },
            ParseError::UnknownOperator(c) => {
                let mut out = String::from_str("Unknown operator: ");
                out.append(c.as_str());
                out
            },
            ParseError::UnexpectedEnd => String::from_str("Unexpected end of input"),
            ParseError::EmptyInput => String::from_str("Empty input"),
        }
    }
}

/// Whether the token at `pos` has the given kind.
pub open spec fn at(ts: Seq<SpecToken>, pos: nat, kind: TokenKind) -> bool {
    pos < ts.len() && ts[pos as int].kind == kind
}

/// The error of reading on at `pos`: the token there is unexpected, or the
/// text has ended.
pub open spec fn unexpected(ts: Seq<SpecToken>, pos: nat) -> SpecParseError {
    if pos < ts.len() {
        SpecParseError::UnexpectedToken(ts[pos as int].text)
    } else {
        SpecParseError::UnexpectedEnd
    }
}

/// A result that ends after `pos` and not after `end`, as it is. (Every
/// result of reading from `pos` on, of `end` tokens, does.)
pub open spec fn forward(
    r: Result<(SpecFormula, nat), SpecParseError>,
    pos: nat,
    end: nat,
) -> Result<(SpecFormula, nat), SpecParseError> {
    match r {
        Ok((f, next)) => if pos < next <= end {
            r
        } else {
            Err(SpecParseError::UnexpectedEnd)
        },
        Err(e) => Err(e),
    }
}

/// The sign of the binary connective of a level: with binds tightest, then
/// plus, then tensor, then par.
pub open spec fn sign_of(level: nat) -> TokenKind {
    if level <= 1 {
        TokenKind::With
    } else if level == 2 {
        TokenKind::Plus
    } else if level == 3 {
        TokenKind::Tensor
    } else {
        TokenKind::Par
    }
}

/// The binary formula of a level.
pub open spec fn joined(level: nat, left: SpecFormula, right: SpecFormula) -> SpecFormula {
    if level <= 1 {
        SpecFormula::With(Box::new(left), Box::new(right))
    } else if level == 2 {
        SpecFormula::Plus(Box::new(left), Box::new(right))
    } else if level == 3 {
        SpecFormula::Tensor(Box::new(left), Box::new(right))
    } else {
        SpecFormula::Par(Box::new(left), Box::new(right))
    }
}

/// Reads a formula from the token at `pos` on: a chain of pars, with a linear
/// implication after it where `-o` follows. Implication groups to the right.
/// Gives the formula and the position after it.
pub open spec fn implication(ts: Seq<SpecToken>, pos: nat) -> Result<
    (SpecFormula, nat),
    SpecParseError,
>
    decreases ts.len() - pos, 10nat, 0nat,
{
    match forward(chain(ts, pos, 4), pos, ts.len()) {
        Ok((left, p)) => if at(ts, p, TokenKind::Lolli) {
            match implication(ts, p + 1) {
                Ok((right, q)) => Ok((SpecFormula::Lolli(Box::new(left), Box::new(right)), q)),
                Err(e) => Err(e),
            }
        } else {
            Ok((left, p))
        },
        Err(e) => Err(e),
    }
}

/// Reads a chain of formulas of the next tighter level, joined by the sign of
/// `level`. A chain groups to the left. At level zero, reads a formula with
/// its prefixes and suffix.
pub open spec fn chain(ts: Seq<SpecToken>, pos: nat, level: nat) -> Result<
    (SpecFormula, nat),
    SpecParseError,
>
    decreases ts.len() - pos, level + 2, 1nat,
{
    if level == 0 {
        unary(ts, pos)
    } else {
        match forward(chain(ts, pos, (level - 1) as nat), pos, ts.len()) {
            Ok((first, p)) => chain_rest(ts, p, level, first),
            Err(e) => Err(e),
        }
    }
}

/// Reads the rest of a chain, after the formula `done`.
pub open spec fn chain_rest(
    ts: Seq<SpecToken>,
    pos: nat,
    level: nat,
    done: SpecFormula,
) -> Result<(SpecFormula, nat), SpecParseError>
    decreases ts.len() - pos, level + 2, 0nat,
{
    if level > 0 && at(ts, pos, sign_of(level)) {
        match forward(chain(ts, pos + 1, (level - 1) as nat), pos + 1, ts.len()) {
            Ok((right, p)) => chain_rest(ts, p, level, joined(level, done, right)),
            Err(e) => Err(e),
        }
    } else {
        Ok((done, pos))
    }
}

/// Reads a formula with its prefixes `!` and `?`, or a primary formula with
/// the negation suffix that may follow it. The suffix negates the formula.
pub open spec fn unary(ts: Seq<SpecToken>, pos: nat) -> Result<
    (SpecFormula, nat),
    SpecParseError,
>
    decreases ts.len() - pos, 1nat, 0nat,
{
    if at(ts, pos, TokenKind::Bang) {
        match unary(ts, pos + 1) {
            Ok((f, p)) => Ok((SpecFormula::OfCourse(Box::new(f)), p)),
            Err(e) => Err(e),
        }
    } else if at(ts, pos, TokenKind::WhyNot) {
        match unary(ts, pos + 1) {
            Ok((f, p)) => Ok((SpecFormula::WhyNot(Box::new(f)), p)),
            Err(e) => Err(e),
        }
    } else {
        match primary(ts, pos) {
            Ok((f, p)) => if at(ts, p, TokenKind::Caret) || at(ts, p, TokenKind::Perp) {
                Ok((f.negate(), p + 1))
            } else {
                Ok((f, p))
            },
            Err(e) => Err(e),
        }
    }
}

/// Reads a primary formula: a formula in parentheses, a unit, or an atom.
pub open spec fn primary(ts: Seq<SpecToken>, pos: nat) -> Result<
    (SpecFormula, nat),
    SpecParseError,
>
    decreases ts.len() - pos, 0nat, 0nat,
{
    if pos >= ts.len() {
        Err(SpecParseError::UnexpectedEnd)
    } else {
        match ts[pos as int].kind {
            TokenKind::Open => match implication(ts, pos + 1) {
                Ok((f, p)) => if at(ts, p, TokenKind::Close) {
                    Ok((f, p + 1))
                } else {
                    Err(unexpected(ts, p))
                },
                Err(e) => Err(e),
            },
            TokenKind::Name => Ok((SpecFormula::Atom(ts[pos as int].text), pos + 1)),
            TokenKind::One => Ok((SpecFormula::One, pos + 1)),
            TokenKind::Bottom => Ok((SpecFormula::Bottom, pos + 1)),
            TokenKind::Perp => Ok((SpecFormula::Bottom, pos + 1)),
            TokenKind::Top => Ok((SpecFormula::Top, pos + 1)),
            TokenKind::Zero => Ok((SpecFormula::Zero, pos + 1)),
            _ => Err(unexpected(ts, pos)),
        }
    }
}

/// Reads formulas separated by commas, after the formulas `done`.
pub open spec fn list(ts: Seq<SpecToken>, pos: nat, done: Seq<SpecFormula>) -> Result<
    (Seq<SpecFormula>, nat),
    SpecParseError,
>
    decreases ts.len() - pos,
{
    match forward(implication(ts, pos), pos, ts.len()) {
        Ok((f, p)) => if at(ts, p, TokenKind::Comma) {
            list(ts, p + 1, done.push(f))
        } else {
            Ok((done.push(f), p))
        },
        Err(e) => Err(e),
    }
}

/// The error of a text with a character that starts no token.
pub open spec fn unknown(c: char) -> SpecParseError {
    SpecParseError::UnknownOperator(seq![c])
}

/// The formula that a text stands for, or why it stands for none. The text
/// must hold one formula and nothing else.
pub open spec fn formula_of(s: Seq<char>) -> Result<SpecFormula, SpecParseError> {
    match lex(s) {
        Err(c) => Err(unknown(c)),
        Ok(ts) => if ts.len() == 0 {
            Err(SpecParseError::EmptyInput)
        } else {
            match implication(ts, 0) {
                Ok((f, p)) => if p == ts.len() {
                    Ok(f)
                } else {
                    Err(unexpected(ts, p))
                },
                Err(e) => Err(e),
            }
        },
    }
}

/// The lists of formulas on the two sides of the turnstile that a text stands
/// for, or why it stands for none. Either list may be empty.
pub open spec fn sequent_of(s: Seq<char>) -> Result<
    (Seq<SpecFormula>, Seq<SpecFormula>),
    SpecParseError,
> {
    match lex(s) {
        Err(c) => Err(unknown(c)),
        Ok(ts) => if ts.len() == 0 {
            Err(SpecParseError::EmptyInput)
        } else {
            let left = if at(ts, 0, TokenKind::Turnstile) {
                Ok((Seq::empty(), 0nat))
            } else {
                list(ts, 0, Seq::empty())
            };
            match left {
                Ok((hypotheses, p)) => if !at(ts, p, TokenKind::Turnstile) {
                    Err(unexpected(ts, p))
                } else if p + 1 == ts.len() {
                    Ok((hypotheses, Seq::empty()))
                } else {
                    match list(ts, p + 1, Seq::empty()) {
                        Ok((conclusions, q)) => if q == ts.len() {
                            Ok((hypotheses, conclusions))
                        } else {
                            Err(unexpected(ts, q))
                        },
                        Err(e) => Err(e),
                    }
                },
                Err(e) => Err(e),
            }
        },
    }
}

/// Whether a result of reading from `pos` on ends after `pos` and not after
/// `end`.
pub open spec fn ends_within(
    r: Result<(SpecFormula, nat), SpecParseError>,
    pos: nat,
    end: nat,
) -> bool {
    r matches Ok((_, next)) ==> pos < next <= end
}

/// Every formula read takes at least one token and ends within the tokens.
pub proof fn lemma_implication_forward(ts: Seq<SpecToken>, pos: nat)
    ensures
        ends_within(implication(ts, pos), pos, ts.len()),
    decreases ts.len() - pos, 10nat, 0nat,
{
    if let Ok((left, p)) = forward(chain(ts, pos, 4), pos, ts.len()) {
        if at(ts, p, TokenKind::Lolli) {
            lemma_implication_forward(ts, p + 1);
        }
    }
}

/// Every chain read takes at least one token and ends within the tokens.
pub proof fn lemma_chain_forward(ts: Seq<SpecToken>, pos: nat, level: nat)
    ensures
        ends_within(chain(ts, pos, level), pos, ts.len()),
        forward(chain(ts, pos, level), pos, ts.len()) == chain(ts, pos, level),
    decreases ts.len() - pos, level + 2, 1nat,
{
    if level == 0 {
        lemma_unary_forward(ts, pos);
    } else {
        lemma_chain_forward(ts, pos, (level - 1) as nat);
        if let Ok((first, p)) = chain(ts, pos, (level - 1) as nat) {
            lemma_chain_rest_forward(ts, p, level, first);
        }
    }
}

proof fn lemma_chain_rest_forward(
    ts: Seq<SpecToken>,
    pos: nat,
    level: nat,
    done: SpecFormula,
)
    requires
        pos <= ts.len(),
    ensures
        chain_rest(ts, pos, level, done) matches Ok((_, next)) ==> pos <= next <= ts.len(),
    decreases ts.len() - pos, level + 2, 0nat,
{
    if level > 0 && at(ts, pos, sign_of(level)) {
        lemma_chain_forward(ts, pos + 1, (level - 1) as nat);
        if let Ok((right, p)) = chain(ts, pos + 1, (level - 1) as nat) {
            lemma_chain_rest_forward(ts, p, level, joined(level, done, right));
        }
    }
}

proof fn lemma_unary_forward(ts: Seq<SpecToken>, pos: nat)
    ensures
        ends_within(unary(ts, pos), pos, ts.len()),
    decreases ts.len() - pos, 1nat, 0nat,
{
    if at(ts, pos, TokenKind::Bang) || at(ts, pos, TokenKind::WhyNot) {
        lemma_unary_forward(ts, pos + 1);
    } else {
        lemma_primary_forward(ts, pos);
    }
}

proof fn lemma_primary_forward(ts: Seq<SpecToken>, pos: nat)
    ensures
        ends_within(primary(ts, pos), pos, ts.len()),
    decreases ts.len() - pos, 0nat, 0nat,
{
    if pos < ts.len() && ts[pos as int].kind == TokenKind::Open {
        lemma_implication_forward(ts, pos + 1);
    }
}

/// The guard on the results that a formula is read from never fires.
pub proof fn lemma_forward_is_identity(ts: Seq<SpecToken>, pos: nat)
    ensures
        forward(implication(ts, pos), pos, ts.len()) == implication(ts, pos),
{
    lemma_implication_forward(ts, pos);
}

/// The model of a formula read with the position after it, or of an error.
pub open spec fn read_model(r: Result<(Formula, usize), ParseError>) -> Result<
    (SpecFormula, nat),
    SpecParseError,
> {
    match r {
        Ok((f, p)) => Ok((f@, p as nat)),
        Err(e) => Err(e@),
    }
}

/// The text that a token spans.
fn token_text(input: &str, t: Token) -> (r: String)
    requires
        t.start <= t.end <= input@.len(),
    ensures
        r@ == token_model(input@, t).text,
{
    input.substring_char(t.start, t.end).to_owned()
}

/// The error of reading on at `pos`.
fn fail_at(input: &str, ts: &Vec<Token>, pos: usize) -> (r: ParseError)
    requires
        spans_within(input@, ts@),
    ensures
        r@ == unexpected(tokens_model(input@, ts@), pos as nat),
{
    if pos < ts.len() {
        ParseError::UnexpectedToken(token_text(input, ts[pos]))
    } else {
        ParseError::UnexpectedEnd
    }
}

/// Whether the token at `pos` has the given kind.
fn is_at(input: &str, ts: &Vec<Token>, pos: usize, kind: TokenKind) -> (r: bool)
    ensures
        r == at(tokens_model(input@, ts@), pos as nat, kind),
{
    pos < ts.len() && ts[pos].kind == kind
}

/// Reads a formula from the token at `pos` on.
fn read_implication(input: &str, ts: &Vec<Token>, pos: usize) -> (r: Result<
    (Formula, usize),
    ParseError,
>)
    requires
        spans_within(input@, ts@),
    ensures
        read_model(r) == implication(tokens_model(input@, ts@), pos as nat),
        r matches Ok((_, next)) ==> pos < next <= ts.len(),
    decreases ts.len() - pos, 10nat, 0nat,
{
    proof {
        lemma_implication_forward(tokens_model(input@, ts@), pos as nat);
    }
    match read_chain(input, ts, pos, 4) {
        Ok((left, p)) => {
            if is_at(input, ts, p, TokenKind::Lolli) {
                match read_implication(input, ts, p + 1) {
                    Ok((right, q)) => Ok((Formula::Lolli(Box::new(left), Box::new(right)), q)),
                    Err(e) => Err(e),
                }
            } else {
                Ok((left, p))
            }
        },
        Err(e) => Err(e),
    }
}

/// Reads a chain of formulas joined by the sign of `level`.
fn read_chain(input: &str, ts: &Vec<Token>, pos: usize, level: u8) -> (r: Result<
    (Formula, usize),
    ParseError,
>)
    requires
        spans_within(input@, ts@),
    ensures
        read_model(r) == chain(tokens_model(input@, ts@), pos as nat, level as nat),
        r matches Ok((_, next)) ==> pos < next <= ts.len(),
    decreases ts.len() - pos, level + 2, 1nat,
{
    proof {
        lemma_chain_forward(tokens_model(input@, ts@), pos as nat, level as nat);
    }
    if level == 0 {
        return read_unary(input, ts, pos);
    }
    let mut done: Formula;
    let mut at_pos: usize;
    match read_chain(input, ts, pos, level - 1) {
        Ok((first, p)) => {
            done = first;
            at_pos = p;
        },
        Err(e) => {
            return Err(e);
        },
    }
    while is_at(input, ts, at_pos, sign_kind_of(level))
        invariant
            spans_within(input@, ts@),
            level > 0,
            pos < at_pos <= ts.len(),
            chain(tokens_model(input@, ts@), pos as nat, level as nat) == chain_rest(
                tokens_model(input@, ts@),
                at_pos as nat,
                level as nat,
                done@,
            ),
        decreases ts.len() - at_pos,
    {
        proof {
            lemma_chain_forward(tokens_model(input@, ts@), (at_pos + 1) as nat, (level - 1) as nat);
        }
        match read_chain(input, ts, at_pos + 1, level - 1) {
            Ok((right, p)) => {
                done = join_at(level, done, right);
                at_pos = p;
            },
            Err(e) => {
                return Err(e);
            },
        }
    }
    Ok((done, at_pos))
}

/// The sign of the binary connective of a level.
fn sign_kind_of(level: u8) -> (r: TokenKind)
    ensures
        r == sign_of(level as nat),
{
    if level <= 1 {
        TokenKind::With
    } else if level == 2 {
        TokenKind::Plus
    } else if level == 3 {
        TokenKind::Tensor
    } else {
        TokenKind::Par
    }
}

/// The binary formula of a level.
fn join_at(level: u8, left: Formula, right: Formula) -> (r: Formula)
    ensures
        r@ == joined(level as nat, left@, right@),
{
    if level <= 1 {
        Formula::With(Box::new(left), Box::new(right))
    } else if level == 2 {
        Formula::Plus(Box::new(left), Box::new(right))
    } else if level == 3 {
        Formula::Tensor(Box::new(left), Box::new(right))
    } else {
        Formula::Par(Box::new(left), Box::new(right))
    }
}

/// Reads a formula with its prefixes and suffix.
fn read_unary(input: &str, ts: &Vec<Token>, pos: usize) -> (r: Result<(Formula, usize), ParseError>)
    requires
        spans_within(input@, ts@),
    ensures
        read_model(r) == unary(tokens_model(input@, ts@), pos as nat),
        r matches Ok((_, next)) ==> pos < next <= ts.len(),
    decreases ts.len() - pos, 1nat, 0nat,
{
    proof {
        lemma_unary_forward(tokens_model(input@, ts@), pos as nat);
    }
    if is_at(input, ts, pos, TokenKind::Bang) {
        match read_unary(input, ts, pos + 1) {
            Ok((f, p)) => Ok((Formula::OfCourse(Box::new(f)), p)),
            Err(e) => Err(e),
        }
    } else if is_at(input, ts, pos, TokenKind::WhyNot) {
        match read_unary(input, ts, pos + 1) {
            Ok((f, p)) => Ok((Formula::WhyNot(Box::new(f)), p)),
            Err(e) => Err(e),
        }
    } else {
        match read_primary(input, ts, pos) {
            Ok((f, p)) => {
                if is_at(input, ts, p, TokenKind::Caret) || is_at(input, ts, p, TokenKind::Perp) {
                    Ok((f.negate(), p + 1))
                } else {
                    Ok((f, p))
                }
            },
            Err(e) => Err(e),
        }
    }
}

/// Reads a primary formula.
fn read_primary(input: &str, ts: &Vec<Token>, pos: usize) -> (r: Result<
    (Formula, usize),
    ParseError,
>)
    requires
        spans_within(input@, ts@),
    ensures
        read_model(r) == primary(tokens_model(input@, ts@), pos as nat),
        r matches Ok((_, next)) ==> pos < next <= ts.len(),
    decreases ts.len() - pos, 0nat, 0nat,
{
    proof {
        lemma_primary_forward(tokens_model(input@, ts@), pos as nat);
    }
    if pos >= ts.len() {
        return Err(ParseError::UnexpectedEnd);
    }
    assert(tokens_model(input@, ts@)[pos as int] == token_model(input@, ts[pos as int]));
    match ts[pos].kind {
        TokenKind::Open => {
            match read_implication(input, ts, pos + 1) {
                Ok((f, p)) => {
                    if is_at(input, ts, p, TokenKind::Close) {
                        Ok((f, p + 1))
                    } else {
                        Err(fail_at(input, ts, p))
                    }
                },
                Err(e) => Err(e),
            }
        },
        TokenKind::Name => Ok((Formula::Atom(token_text(input, ts[pos])), pos + 1)),
        TokenKind::One => Ok((Formula::One, pos + 1)),
        TokenKind::Bottom => Ok((Formula::Bottom, pos + 1)),
        TokenKind::Perp => Ok((Formula::Bottom, pos + 1)),
        TokenKind::Top => Ok((Formula::Top, pos + 1)),
        TokenKind::Zero => Ok((Formula::Zero, pos + 1)),
        _ => Err(fail_at(input, ts, pos)),
    }
}

/// The model of a list of formulas read with the position after it.
pub open spec fn list_model(r: Result<(Vec<Formula>, usize), ParseError>) -> Result<
    (Seq<SpecFormula>, nat),
    SpecParseError,
> {
    match r {
        Ok((fs, p)) => Ok((models(fs@), p as nat)),
        Err(e) => Err(e@),
    }
}

/// Reads formulas separated by commas.
fn read_list(input: &str, ts: &Vec<Token>, pos: usize) -> (r: Result<
    (Vec<Formula>, usize),
    ParseError,
>)
    requires
        spans_within(input@, ts@),
    ensures
        list_model(r) == list(tokens_model(input@, ts@), pos as nat, Seq::empty()),
        r matches Ok((_, next)) ==> pos < next <= ts.len(),
{
    let mut done: Vec<Formula> = Vec::new();
    let mut at_pos: usize = pos;
    assert(models(done@) == Seq::<SpecFormula>::empty());
    loop
        invariant
            spans_within(input@, ts@),
            pos <= at_pos,
            list(tokens_model(input@, ts@), pos as nat, Seq::empty()) == list(
                tokens_model(input@, ts@),
                at_pos as nat,
                models(done@),
            ),
        decreases ts.len() - at_pos,
    {
        proof {
            lemma_implication_forward(tokens_model(input@, ts@), at_pos as nat);
        }
        match read_implication(input, ts, at_pos) {
            Ok((f, p)) => {
                proof {
                    crate::formula::lemma_models_push(done@, f);
                }
                done.push(f);
                if is_at(input, ts, p, TokenKind::Comma) {
                    at_pos = p + 1;
                } else {
                    return Ok((done, p));
                }
            },
            Err(e) => {
                return Err(e);
            },
        }
    }
}

/// The model of a formula read from a text, or of an error.
pub open spec fn formula_result(r: Result<Formula, ParseError>) -> Result<
    SpecFormula,
    SpecParseError,
> {
    match r {
        Ok(f) => Ok(f@),
        Err(e) => Err(e@),
    }
}

/// The model of a sequent read from a text, or of an error.
pub open spec fn sequent_result(r: Result<TwoSidedSequent, ParseError>) -> Result<
    (Seq<SpecFormula>, Seq<SpecFormula>),
    SpecParseError,
> {
    match r {
        Ok(q) => Ok((q.left(), q.right())),
        Err(e) => Err(e@),
    }
}

/// Reads a formula from a text. The text must hold one formula and nothing
/// else but blanks.
pub fn parse_formula(input: &str) -> (r: Result<Formula, ParseError>)
    ensures
        formula_result(r) == formula_of(input@),
{
    let chars = characters(input);
    match tokenize(&chars) {
        Err(i) => {
            assert(input@.subrange(i as int, i + 1) == seq![input@[i as int]]);
            Err(ParseError::UnknownOperator(input.substring_char(i, i + 1).to_owned()))
        },
        Ok(ts) => {
            if ts.len() == 0 {
                return Err(ParseError::EmptyInput);
            }
            match read_implication(input, &ts, 0) {
                Ok((f, p)) => {
                    if p == ts.len() {
                        Ok(f)
                    } else {
                        Err(fail_at(input, &ts, p))
                    }
                },
                Err(e) => Err(e),
            }
        },
    }
}

/// Reads a two-sided sequent from a text: a list of formulas separated by
/// commas, the turnstile, and another list. Either list may be missing.
pub fn parse_sequent(input: &str) -> (r: Result<TwoSidedSequent, ParseError>)
    ensures
        sequent_result(r) == sequent_of(input@),
{
    let chars = characters(input);
    match tokenize(&chars) {
        Err(i) => {
            assert(input@.subrange(i as int, i + 1) == seq![input@[i as int]]);
            Err(ParseError::UnknownOperator(input.substring_char(i, i + 1).to_owned()))
        },
        Ok(ts) => {
            if ts.len() == 0 {
                return Err(ParseError::EmptyInput);
            }
            let antecedent: Vec<Formula>;
            let p: usize;
            if is_at(input, &ts, 0, TokenKind::Turnstile) {
                antecedent = Vec::new();
                p = 0;
                assert(models(antecedent@) == Seq::<SpecFormula>::empty());
            } else {
                match read_list(input, &ts, 0) {
                    Ok((fs, next)) => {
                        antecedent = fs;
                        p = next;
                    },
                    Err(e) => {
                        return Err(e);
                    },
                }
            }
            if !is_at(input, &ts, p, TokenKind::Turnstile) {
                return Err(fail_at(input, &ts, p));
            }
            if p + 1 == ts.len() {
                let succedent: Vec<Formula> = Vec::new();
                assert(models(succedent@) == Seq::<SpecFormula>::empty());
                return Ok(TwoSidedSequent::new(antecedent, succedent));
            }
            match read_list(input, &ts, p + 1) {
                Ok((succedent, q)) => {
                    if q == ts.len() {
                        Ok(TwoSidedSequent::new(antecedent, succedent))
                    } else {
                        Err(fail_at(input, &ts, q))
                    }
                },
                Err(e) => Err(e),
            }
        },
    }
}

} // verus!
