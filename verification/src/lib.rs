/* Copyright (C) 2023, 2024 Riccardo Sacchetto <rsacchetto(at)nexxontech(dot)it>
 *
 * This file is part of GPT MD Translator.
 *
 * GPT MD Translator is free software: you can redistribute it and/or modify it under the terms of
 * the GNU General Public License as published by the Free Software Foundation,
 * either version 3 of the License, or (at your option) any later version.
 *
 * GPT MD Translator is distributed in the hope that it will be useful, but WITHOUT ANY
 * WARRANTY; without even the implied warranty of MERCHANTABILITY or
 * FITNESS FOR A PARTICULAR PURPOSE. See the GNU General Public License for
 * more details.
 *
 * You should have received a copy of the GNU General Public License along with
 * GPT MD Translator. If not, see <https://www.gnu.org/licenses/>.
 */

//! Translate a Markdown document through a chat model, a request-sized piece
//! at a time.
//!
//! A chat model accepts only so many tokens in one request. A document that
//! is larger is cut at its blank lines into chunks of whole paragraphs, each
//! chunk is translated by a call of its own, and the results are put
//! together in their order. This crate holds the rules of that process; the
//! network, the files and the command line belong to the program around it.
//!
//! - `paragraphs` cuts a document at its blank lines.
//! - `chunking` says how paragraphs are gathered into chunks under a token
//!   budget, and proves what holds of the chunks.
//! - `md_chunker` is the chunker itself.
//! - `tokenizer` counts tokens.
//! - `response` reads what a call brought back, `usage` sums what the
//!   calls report.
//! - `pipeline` drives a run: what to send next, and what the run comes to.
//! - `prompt` builds the system prompt, `opts` holds the paths of a run.

pub mod chunking;
pub mod md_chunker;
pub mod opts;
pub mod paragraphs;
pub mod pipeline;
pub mod prompt;
pub mod response;
pub mod tokenizer;
pub mod usage;
