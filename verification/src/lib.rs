//! A lexical scanner for a small C-like toy language.
//!
//! The scanner walks an immutable input text one character at a time and
//! produces one classified token per call: fixed single-character punctuation,
//! identifiers, the keywords `let` and `fn`, integer literals, an invalid
//! token for anything unrecognized, and an end-of-input token once the text is
//! exhausted. The caller drives the scan by requesting tokens until it sees
//! end-of-input.
//!
//! Two deliberate choices keep every scan moving forward: a run of
//! consecutive whitespace characters is skipped whole before each token, and
//! an unrecognized character is consumed when it is reported as invalid.
//! Both are proved in [`lexer::lemma_scan_progress`]: a scan that has not
//! reached end-of-input always advances the cursor.

pub mod lexer;
pub mod token;
