/* Copyright (C) 2023, 2024 Riccardo Sacchetto <rsacchetto(at)nexxontech(dot)it>
 *
 * This file is part of GPT MD Translator.
 *
 * GPT MD Translator is free software: you can redistribute it and/or modify it under the terms of
 * the GNU General Public License as published by the Free Software Foundation,
 * either version 3 of the License, or (at your option) any later version.
 *
 * GPT MD Translator is distributed in the hope that it will be useful, but WITHOUT ANY
 * WARRANTY; without even the implied warranty of MERCHANTABILITY or
 * FITNESS FOR A PARTICULAR PURPOSE. See the GNU General Public License for
 * more details.
 *
 * You should have received a copy of the GNU General Public License along with
 * GPT MD Translator. If not, see <https://www.gnu.org/licenses/>.
 */

//! Counting the tokens of a text with the `cl100k_base` encoding.

use tiktoken_rs::CoreBPE;
use vstd::prelude::*;
use vstd::string::StrSliceExecFns;

verus! {

/// `tiktoken_rs::CoreBPE`, an encoder with its vocabulary and pattern. It
/// is carried as it is; nothing is known of what it holds.
#[verifier::external_type_specification]
#[verifier::external_body]
pub struct ExCoreBPE(tiktoken_rs::CoreBPE);

/// `anyhow::Error`, the error that setting up an encoder may end in. It is
/// only told apart from success.
#[verifier::external_type_specification]
#[verifier::external_body]
pub struct ExAnyhowError(anyhow::Error);

/// The longest text, in characters, that is handed to the encoder.
///
/// The encoder cuts a text into pieces with a backtracking matcher. For
/// each piece the matcher keeps at most one stack entry for each character
/// it runs over and steps back at most once for each, and it gives up
/// beyond a million entries or a million steps back; the encoder then
/// panics. A text of at most this length stays at about half of either.
pub const MAX_TEXT_CHARS: usize = 500_000;

/// The tokens that `CoreBPE::encode_with_special_tokens` returns for
/// `text`, in their order.
pub uninterp spec fn encoding(bpe: CoreBPE, text: Seq<char>) -> Seq<usize>;

/// Whether `bpe` was made by `tiktoken_rs::cl100k_base`, from the
/// vocabulary and the pattern that the crate carries for that encoding.
pub uninterp spec fn is_cl100k_base(bpe: CoreBPE) -> bool;

/// Calls `tiktoken_rs::cl100k_base`, which reads the vocabulary built into
/// the crate and compiles the pattern. Nothing is claimed but that what it
/// hands out is that encoder.
#[verifier::external_body]
fn load_cl100k_base() -> (loaded: Result<CoreBPE, anyhow::Error>)
    ensures
        loaded matches Ok(bpe) ==> is_cl100k_base(bpe),
{
    tiktoken_rs::cl100k_base()
}

/// Calls `CoreBPE::encode_with_special_tokens`. The result is a function of
/// the encoder and the text, and is only given its name here. The call
/// panics where the matcher gives up or where a byte of the text is
/// missing from the vocabulary; the `cl100k_base` vocabulary holds every
/// byte, and a text within `MAX_TEXT_CHARS` cannot exhaust the matcher.
#[verifier::external_body]
fn encode_with_special_tokens(bpe: &CoreBPE, text: &str) -> (tokens: Vec<usize>)
    requires
        is_cl100k_base(*bpe),
        text@.len() <= MAX_TEXT_CHARS,
    ensures
        tokens@ == encoding(*bpe, text@),
{
    bpe.encode_with_special_tokens(text)
}

/// Why a text could not be counted.
#[derive(Clone, Copy, Debug, PartialEq, Eq, Structural)]
pub enum CountingError {
    /// The encoder could not be set up.
    TokenizerUnavailable,
    /// The text has more than `MAX_TEXT_CHARS` characters.
    TextTooLong,
}

/// A token counter for the `cl100k_base` encoding.
pub struct Tokenizer {
    bpe: CoreBPE,
}

impl Tokenizer {
    #[verifier::type_invariant]
    spec fn well_formed(self) -> bool {
        is_cl100k_base(self.bpe)
    }

    /// The number of tokens this counter finds in `text`.
    pub closed spec fn tokens(&self, text: Seq<char>) -> nat {
        encoding(self.bpe, text).len()
    }

    /// This counter as a function from texts to token counts.
    pub open spec fn counter(&self) -> spec_fn(Seq<char>) -> nat {
        |text: Seq<char>| self.tokens(text)
    }

    /// Sets up the counter. Whether that succeeds is up to the encoder's
    /// own construction; when it fails the error says so.
    pub fn cl100k() -> (made: Result<Tokenizer, CountingError>)
        ensures
            made matches Err(error) ==> error == CountingError::TokenizerUnavailable,
    {
        match load_cl100k_base() {
            Ok(bpe) => Ok(Tokenizer { bpe }),
            Err(_) => Err(CountingError::TokenizerUnavailable),
        }
    }

    /// Counts the tokens of a text that is short enough for the encoder.
    pub fn count_within(&self, text: &str) -> (count: usize)
        requires
            text@.len() <= MAX_TEXT_CHARS,
        ensures
            count == self.tokens(text@),
    {
        proof {
            use_type_invariant(self);
        }
        encode_with_special_tokens(&self.bpe, text).len()
    }

    /// Counts the tokens of `text`, or says that it is too long to count.
    pub fn count(&self, text: &str) -> (counted: Result<usize, CountingError>)
        ensures
            text@.len() <= MAX_TEXT_CHARS ==> counted == Ok::<usize, CountingError>(
                self.tokens(text@) as usize,
            ) && self.tokens(text@) <= usize::MAX,
            text@.len() > MAX_TEXT_CHARS ==> counted == Err::<usize, CountingError>(
                CountingError::TextTooLong,
            ),
    {
        if text.unicode_len() <= MAX_TEXT_CHARS {
            Ok(self.count_within(text))
        } else {
            Err(CountingError::TextTooLong)
        }
    }
}

} // verus!
