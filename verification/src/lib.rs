//! A workbench for linear logic: formulas and sequents, focused proof search,
//! proof checking, term extraction and normalization.

pub mod calculus;
pub mod counter;
pub mod derivation;
pub mod dot;
pub mod extract;
pub mod formula;
pub mod latex;
pub mod lexer;
pub mod measure;
pub mod normalize;
pub mod parse;
pub mod roundtrip;
pub mod search;
pub mod soundness;
pub mod sequent;
pub mod term;
pub mod text;
pub mod tree;
pub mod verify;

pub use derivation::{Proof, Rule};
pub use dot::{proof_to_dot, render_dot, Direction, DotRenderer, NodeShape};
pub use extract::{extract_normalized, extract_term, Extractor};
pub use formula::Formula;
pub use latex::{proof_to_latex, render_latex, LatexRenderer};
pub use normalize::{is_normal, normalize, normalize_bounded, step};
pub use parse::{parse_formula, parse_sequent, ParseError};
pub use search::Prover;
pub use sequent::{Sequent, TwoSidedSequent};
pub use term::Term;
pub use tree::{render_ascii, render_unicode, TreeRenderer};
pub use verify::{verify_proof, ProofError};
