/* Copyright (C) 2023, 2024 Riccardo Sacchetto <rsacchetto(at)nexxontech(dot)it>
 *
 * This file is part of GPT MD Translator.
 *
 * GPT MD Translator is free software: you can redistribute it and/or modify it under the terms of
 * the GNU General Public License as published by the Free Software Foundation,
 * either version 3 of the License, or (at your option) any later version.
 *
 * GPT MD Translator is distributed in the hope that it will be useful, but WITHOUT ANY
 * WARRANTY; without even the implied warranty of MERCHANTABILITY or
 * FITNESS FOR A PARTICULAR PURPOSE. See the GNU General Public License for
 * more details.
 *
 * You should have received a copy of the GNU General Public License along with
 * GPT MD Translator. If not, see <https://www.gnu.org/licenses/>.
 */

//! The chunker: hands out a document one request-sized chunk at a time.
//!
//! The document is cut into its paragraphs when the chunker is made. Each
//! chunk is put together when it is asked for, from the paragraphs that are
//! next, and is not kept.

use crate::chunking::{
    chunks, extend, first_chunk_len, lemma_chunks_empty, lemma_chunks_unfold, may_join,
    within_budget, Sizing, CHUNK_BUDGET,
};
use crate::paragraphs::{
    bundle, delimiter, lemma_bundle_len, lemma_bundle_next, lemma_paragraphs_bundle, paragraphs,
    split_paragraphs,
};
use crate::tokenizer::{Tokenizer, MAX_TEXT_CHARS};
use vstd::prelude::*;
use vstd::string::{StrSliceExecFns, StringExecFns};

verus! {

/// Whether a document of these characters can be chunked: with the
/// delimiter behind it, which its last chunk ends with, it must not be
/// longer than the counter accepts.
pub open spec fn chunkable(text: Seq<char>) -> bool {
    text.len() + 2 <= MAX_TEXT_CHARS
}

/// Whether `text` can be chunked.
pub fn is_chunkable(text: &str) -> (ok: bool)
    ensures
        ok == chunkable(text@),
{
    text.unicode_len() <= MAX_TEXT_CHARS - 2
}

/// A document on its way out in chunks. Each call of `next` hands out the
/// next chunk; the paragraphs it holds are taken off the front of those
/// that are pending.
pub struct MDChunker {
    paragraphs: Vec<String>,
    position: usize,
    tokenizer: Tokenizer,
    sys_prompt_tokens: usize,
    budget: usize,
}

impl MDChunker {
    #[verifier::type_invariant]
    spec fn well_formed(self) -> bool {
        &&& self.position <= self.paragraphs.len()
        &&& bundle(self.paragraphs.deep_view()).len() <= MAX_TEXT_CHARS
    }

    /// The paragraphs that no chunk has taken yet.
    pub closed spec fn pending(&self) -> Seq<Seq<char>> {
        self.paragraphs.deep_view().skip(self.position as int)
    }

    /// What the chunks are sized with: the token counter, the tokens set
    /// aside for the system prompt in every request, and the budget.
    pub closed spec fn sizing(&self) -> Sizing {
        Sizing {
            count: self.tokenizer.counter(),
            reserved: self.sys_prompt_tokens as nat,
            budget: self.budget as nat,
        }
    }

    /// The chunks that are still to come, in their order.
    pub open spec fn remaining_chunks(&self) -> Seq<Seq<char>> {
        chunks(self.sizing(), self.pending())
    }

    /// A chunker for `text` under the usual budget, `CHUNK_BUDGET`, with
    /// `sys_prompt_tokens` tokens set aside for the system prompt. The text
    /// must be short enough to be counted, which `is_chunkable` tells.
    pub fn new(text: &String, tokenizer: Tokenizer, sys_prompt_tokens: usize) -> (chunker:
        MDChunker)
        requires
            chunkable(text@),
        ensures
            chunker.pending() == paragraphs(text@),
            chunker.sizing() == (Sizing {
                count: tokenizer.counter(),
                reserved: sys_prompt_tokens as nat,
                budget: CHUNK_BUDGET as nat,
            }),
    {
        MDChunker::with_budget(text, tokenizer, sys_prompt_tokens, CHUNK_BUDGET)
    }

    /// A chunker for `text` under a budget of the caller's choice.
    pub fn with_budget(
        text: &String,
        tokenizer: Tokenizer,
        sys_prompt_tokens: usize,
        budget: usize,
    ) -> (chunker: MDChunker)
        requires
            chunkable(text@),
        ensures
            chunker.pending() == paragraphs(text@),
            chunker.sizing() == (Sizing {
                count: tokenizer.counter(),
                reserved: sys_prompt_tokens as nat,
                budget: budget as nat,
            }),
    {
        let paragraphs = split_paragraphs(text.as_str());
        proof {
            lemma_paragraphs_bundle(text@);
            assert(paragraphs.deep_view().skip(0) == paragraphs.deep_view());
        }
        MDChunker { paragraphs, position: 0, tokenizer, sys_prompt_tokens, budget }
    }

    /// Hands out the next chunk, or `None` once every paragraph is out.
    ///
    /// The chunk always takes the paragraph that is pending first, however
    /// large it is, and then each further one that passes the budget test
    /// against the text gathered so far; it stops at the first that fails.
    /// So the chunk is the bundle of the first paragraphs that are pending,
    /// as many as `first_chunk_len` says, and those are pending no longer.
    /// A chunk is never empty, and every call that hands one out makes the
    /// pending paragraphs fewer.
    pub fn next(&mut self) -> (chunk: Option<String>)
        ensures
            final(self).sizing() == old(self).sizing(),
            ({
                let before = old(self).pending();
                let n = first_chunk_len(old(self).sizing(), before);
                if before.len() == 0 {
                    chunk is None && final(self).pending() == before
                } else {
                    &&& chunk matches Some(text)
                    &&& text@ == bundle(before.take(n))
                    &&& text@.len() >= 2
                    &&& final(self).pending() == before.skip(n)
                    &&& final(self).pending().len() < before.len()
                }
            }),
            chunk matches Some(text) ==> old(self).remaining_chunks() == seq![text@]
                + final(self).remaining_chunks(),
            chunk is None ==> old(self).remaining_chunks() == Seq::<Seq<char>>::empty(),
    {
        proof {
            use_type_invariant(&*self);
        }
        let ghost all = self.paragraphs.deep_view();
        let ghost start = self.position as int;
        let ghost pending = self.pending();
        let ghost sizing = self.sizing();
        let mut cache = String::new();
        let mut taken: usize = 0;
        while self.position < self.paragraphs.len()
            invariant
                self.paragraphs.deep_view() == all,
                bundle(all).len() <= MAX_TEXT_CHARS,
                pending == all.skip(start),
                pending == old(self).pending(),
                sizing == old(self).sizing(),
                self.sizing() == sizing,
                0 <= start <= all.len(),
                self.position == start + taken,
                self.position <= all.len(),
                cache@ == bundle(pending.take(taken as int)),
                taken >= 1 ==> extend(sizing, pending, taken as int)
                    == first_chunk_len(sizing, pending),
            decreases self.paragraphs.len() - self.position,
        {
            let par = self.paragraphs[self.position].as_str();
            proof {
                assert(par@ == all[start + taken]);
                assert(pending[taken as int] == par@);
                lemma_bundle_len(all, start, start + taken);
                assert(all.subrange(start, start + taken) == pending.take(taken as int));
                lemma_bundle_len(all, start + taken, all.len() as int);
                lemma_bundle_len(all, start + taken, start + taken + 1);
            }
            if taken > 0 {
                let held_tokens = self.tokenizer.count_within(cache.as_str());
                let next_tokens = self.tokenizer.count_within(par);
                if !within_budget(self.sys_prompt_tokens, held_tokens, next_tokens, self.budget) {
                    proof {
                        assert(!may_join(sizing, pending, taken as int));
                        assert(all.skip(start + taken) == pending.skip(taken as int));
                        lemma_chunks_unfold(sizing, pending);
                    }
                    return Some(cache);
                }
                assert(may_join(sizing, pending, taken as int));
            }
            cache.append(par);
            cache.append("\n\n");
            proof {
                reveal_strlit("\n\n");
                assert("\n\n"@ == delimiter());
                lemma_bundle_next(pending, taken as int);
            }
            self.position = self.position + 1;
            taken = taken + 1;
        }
        proof {
            assert(all.skip(start + taken) == pending.skip(taken as int));
            if taken > 0 {
                lemma_chunks_unfold(sizing, pending);
                lemma_bundle_len(all, start, start + taken);
                assert(all.subrange(start, start + taken) == pending.take(taken as int));
            } else {
                lemma_chunks_empty(sizing, pending);
            }
        }
        if taken > 0 {
            Some(cache)
        } else {
            None
        }
    }

    /// Hands out all the chunks that are still to come, in their order.
    pub fn into_chunks(self) -> (all: Vec<String>)
        ensures
            all.deep_view() == self.remaining_chunks(),
    {
        let mut chunker = self;
        let mut all: Vec<String> = Vec::new();
        assert(all.deep_view() + chunker.remaining_chunks() == self.remaining_chunks());
        loop
            invariant
                all.deep_view() + chunker.remaining_chunks() == self.remaining_chunks(),
            ensures
                all.deep_view() == self.remaining_chunks(),
            decreases chunker.pending().len(),
        {
            let ghost before = all.deep_view();
            let ghost waiting = chunker.remaining_chunks();
            match chunker.next() {
                Some(chunk) => {
                    all.push(chunk);
                    proof {
                        assert(all.deep_view() == before.push(chunk@));
                        assert(before.push(chunk@) + chunker.remaining_chunks() == before
                            + waiting);
                    }
                },
                None => {
                    assert(before + waiting == before);
                    break ;
                },
            }
        }
        all
    }
}

/// Texts that can be handed out in chunks.
pub trait MDChunkable {
    /// The characters of the text.
    spec fn characters(&self) -> Seq<char>;

    /// A chunker for this text under the usual budget.
    fn md_chunk(&self, tokenizer: Tokenizer, sys_prompt_tokens: usize) -> (chunker: MDChunker)
        requires
            chunkable(self.characters()),
        ensures
            chunker.pending() == paragraphs(self.characters()),
            chunker.sizing() == (Sizing {
                count: tokenizer.counter(),
                reserved: sys_prompt_tokens as nat,
                budget: CHUNK_BUDGET as nat,
            }),
    ;
}

impl MDChunkable for String {
    open spec fn characters(&self) -> Seq<char> {
        self@
    }

    fn md_chunk(&self, tokenizer: Tokenizer, sys_prompt_tokens: usize) -> (chunker: MDChunker) {
        MDChunker::new(self, tokenizer, sys_prompt_tokens)
    }
}

} // verus!
