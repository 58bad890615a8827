/* Copyright (C) 2023, 2024 Riccardo Sacchetto <rsacchetto(at)nexxontech(dot)it>
 *
 * This file is part of GPT MD Translator.
 *
 * GPT MD Translator is free software: you can redistribute it and/or modify it under the terms of
 * the GNU General Public License as published by the Free Software Foundation,
 * either version 3 of the License, or (at your option) any later version.
 *
 * GPT MD Translator is distributed in the hope that it will be useful, but WITHOUT ANY
 * WARRANTY; without even the implied warranty of MERCHANTABILITY or
 * FITNESS FOR A PARTICULAR PURPOSE. See the GNU General Public License for
 * more details.
 *
 * You should have received a copy of the GNU General Public License along with
 * GPT MD Translator. If not, see <https://www.gnu.org/licenses/>.
 */

//! How paragraphs are gathered into chunks, and what holds of the result.
//!
//! A chunk is gathered greedily. Its first paragraph is always taken. Each
//! further paragraph is taken as long as the tokens reserved for the system
//! prompt, those of the text held so far and those of the paragraph, with
//! the overhead of a message added to each of the two texts, stay under the
//! budget. Everything here is stated for an arbitrary token counter.

use crate::paragraphs::{
    bundle, delimiter, lemma_bundle_concat, lemma_bundle_len, lemma_paragraphs_bundle, paragraphs,
};
use vstd::prelude::*;

verus! {

/// The tokens a message costs beyond those of its text.
pub const MESSAGE_OVERHEAD: usize = 4;

/// The most tokens one request may hold, system prompt and text together.
pub const HARD_REQUEST_LIMIT: usize = 4096;

/// The budget chunks are gathered under: half the request limit, which
/// leaves the other half to the translation that comes back.
pub const CHUNK_BUDGET: usize = HARD_REQUEST_LIMIT / 2;

/// What the size of a chunk is measured with.
pub struct Sizing {
    /// The token counter: how many tokens a text has.
    pub count: spec_fn(Seq<char>) -> nat,
    /// The tokens set aside in every request for the system prompt.
    pub reserved: nat,
    /// The budget that a request is held against.
    pub budget: nat,
}

/// Whether `next` may be added to the text `held`.
pub open spec fn fits(sizing: Sizing, held: Seq<char>, next: Seq<char>) -> bool {
    sizing.reserved + ((sizing.count)(held) + MESSAGE_OVERHEAD) + ((sizing.count)(next)
        + MESSAGE_OVERHEAD) < sizing.budget
}

/// Whether paragraph `k` of `pars` may be added to the `k` paragraphs
/// before it, once they are bundled.
pub open spec fn may_join(sizing: Sizing, pars: Seq<Seq<char>>, k: int) -> bool {
    fits(sizing, bundle(pars.take(k)), pars[k])
}

/// How many paragraphs a chunk ends up with that already holds the first
/// `taken` of `pars`.
pub open spec fn extend(sizing: Sizing, pars: Seq<Seq<char>>, taken: int) -> int
    decreases pars.len() - taken,
{
    if 0 <= taken < pars.len() && may_join(sizing, pars, taken) {
        extend(sizing, pars, taken + 1)
    } else {
        taken
    }
}

/// How many paragraphs the first chunk of `pars` holds: none where there
/// are none, else the first and as many more as may join.
pub open spec fn first_chunk_len(sizing: Sizing, pars: Seq<Seq<char>>) -> int {
    if pars.len() == 0 {
        0
    } else {
        extend(sizing, pars, 1)
    }
}

/// The paragraphs of `pars` in the groups they are sent in.
pub open spec fn groups(sizing: Sizing, pars: Seq<Seq<char>>) -> Seq<Seq<Seq<char>>>
    decreases pars.len(),
{
    let n = first_chunk_len(sizing, pars);
    if 1 <= n <= pars.len() {
        seq![pars.take(n)] + groups(sizing, pars.skip(n))
    } else {
        Seq::empty()
    }
}

/// The chunks of `pars`: each group written out with the delimiter behind
/// each of its paragraphs.
pub open spec fn chunks(sizing: Sizing, pars: Seq<Seq<char>>) -> Seq<Seq<char>> {
    groups(sizing, pars).map_values(|group: Seq<Seq<char>>| bundle(group))
}

/// A paragraph that is over the budget by itself: it could not even join
/// an empty text.
pub open spec fn over_budget(sizing: Sizing, par: Seq<char>) -> bool {
    !fits(sizing, Seq::empty(), par)
}

/// `extend` stops at the first paragraph that may not join, or at the end.
pub proof fn lemma_extend(sizing: Sizing, pars: Seq<Seq<char>>, taken: int)
    requires
        0 <= taken <= pars.len(),
    ensures
        taken <= extend(sizing, pars, taken) <= pars.len(),
        forall|k: int|
            taken <= k < extend(sizing, pars, taken) ==> may_join(sizing, pars, k),
        extend(sizing, pars, taken) < pars.len() ==> !may_join(
            sizing,
            pars,
            extend(sizing, pars, taken),
        ),
    decreases pars.len() - taken,
{
    if taken < pars.len() && may_join(sizing, pars, taken) {
        lemma_extend(sizing, pars, taken + 1);
    }
}

/// The first chunk holds at least one paragraph, every later one of its
/// paragraphs passed the budget test, and the paragraph that follows the
/// chunk, if there is one, failed it.
pub proof fn lemma_first_chunk_len(sizing: Sizing, pars: Seq<Seq<char>>)
    requires
        pars.len() > 0,
    ensures
        1 <= first_chunk_len(sizing, pars) <= pars.len(),
        forall|k: int|
            1 <= k < first_chunk_len(sizing, pars) ==> may_join(sizing, pars, k),
        first_chunk_len(sizing, pars) < pars.len() ==> !may_join(
            sizing,
            pars,
            first_chunk_len(sizing, pars),
        ),
{
    lemma_extend(sizing, pars, 1);
}

/// The chunks of a non-empty sequence of paragraphs are its first chunk
/// and then the chunks of the paragraphs that the first chunk left.
pub proof fn lemma_chunks_unfold(sizing: Sizing, pars: Seq<Seq<char>>)
    requires
        pars.len() > 0,
    ensures
        chunks(sizing, pars) == seq![
            bundle(pars.take(first_chunk_len(sizing, pars))),
        ] + chunks(sizing, pars.skip(first_chunk_len(sizing, pars))),
{
    lemma_first_chunk_len(sizing, pars);
    let n = first_chunk_len(sizing, pars);
    let rest = groups(sizing, pars.skip(n));
    let write = |group: Seq<Seq<char>>| bundle(group);
    assert((seq![pars.take(n)] + rest).map_values(write) == seq![bundle(pars.take(n))]
        + rest.map_values(write));
}

/// Where there are no paragraphs there are no chunks.
pub proof fn lemma_chunks_empty(sizing: Sizing, pars: Seq<Seq<char>>)
    requires
        pars.len() == 0,
    ensures
        chunks(sizing, pars) == Seq::<Seq<char>>::empty(),
{
    assert(groups(sizing, pars).map_values(
        |group: Seq<Seq<char>>| bundle(group),
    ) == Seq::<Seq<char>>::empty());
}

/// No data loss: the groups, one after the other, are the paragraphs in
/// their order, so every paragraph is in one chunk, whole and once; and the
/// chunks, one after the other, are the bundle of all the paragraphs.
pub proof fn lemma_no_data_loss(sizing: Sizing, pars: Seq<Seq<char>>)
    ensures
        groups(sizing, pars).flatten() == pars,
        chunks(sizing, pars).flatten() == bundle(pars),
        chunks(sizing, pars).len() == groups(sizing, pars).len(),
        forall|k: int|
            0 <= k < groups(sizing, pars).len() ==> #[trigger] chunks(
                sizing,
                pars,
            )[k] == bundle(groups(sizing, pars)[k]),
    decreases pars.len(),
{
    let all = groups(sizing, pars);
    if pars.len() == 0 {
        lemma_chunks_empty(sizing, pars);
        assert(all.flatten() == pars);
        assert(chunks(sizing, pars).flatten() == bundle(pars));
    } else {
        lemma_first_chunk_len(sizing, pars);
        lemma_chunks_unfold(sizing, pars);
        let n = first_chunk_len(sizing, pars);
        let rest = pars.skip(n);
        lemma_no_data_loss(sizing, rest);
        let first = seq![pars.take(n)];
        let later = groups(sizing, rest);
        assert(all.first() == pars.take(n));
        assert(all.drop_first() == later);
        assert(all.flatten() == pars.take(n) + later.flatten());
        assert(pars == pars.take(n) + rest);
        let written = chunks(sizing, pars);
        assert(written.first() == bundle(pars.take(n)));
        assert(written.drop_first() == chunks(sizing, rest));
        assert(written.flatten() == bundle(pars.take(n)) + chunks(sizing, rest).flatten());
        lemma_bundle_concat(pars.take(n), rest);
    }
}

/// The chunks of a document, one after the other, are the document with
/// one delimiter behind it.
pub proof fn lemma_chunks_restore_document(sizing: Sizing, text: Seq<char>)
    ensures
        chunks(sizing, paragraphs(text)).flatten() == text + delimiter(),
{
    lemma_no_data_loss(sizing, paragraphs(text));
    lemma_paragraphs_bundle(text);
}

/// No empty chunks: every group holds a paragraph, and every chunk ends
/// with the delimiter, so none is the empty string.
pub proof fn lemma_no_empty_chunk(sizing: Sizing, pars: Seq<Seq<char>>, k: int)
    requires
        0 <= k < chunks(sizing, pars).len(),
    ensures
        groups(sizing, pars)[k].len() >= 1,
        chunks(sizing, pars)[k].len() >= 2,
    decreases pars.len(),
{
    lemma_first_chunk_len(sizing, pars);
    lemma_chunks_unfold(sizing, pars);
    let n = first_chunk_len(sizing, pars);
    if k == 0 {
        lemma_bundle_len(pars, 0, n);
        assert(pars.subrange(0, n) == pars.take(n));
    } else {
        lemma_no_empty_chunk(sizing, pars.skip(n), k - 1);
    }
}

/// Forward progress: there are no more chunks than paragraphs, and at
/// least one where there is a paragraph. A document always has one.
pub proof fn lemma_chunks_are_few(sizing: Sizing, pars: Seq<Seq<char>>)
    ensures
        chunks(sizing, pars).len() <= pars.len(),
        pars.len() > 0 ==> chunks(sizing, pars).len() >= 1,
    decreases pars.len(),
{
    if pars.len() == 0 {
        lemma_chunks_empty(sizing, pars);
    } else {
        lemma_first_chunk_len(sizing, pars);
        lemma_chunks_unfold(sizing, pars);
        lemma_chunks_are_few(sizing, pars.skip(first_chunk_len(sizing, pars)));
    }
}

/// Where the reserved tokens alone reach the budget nothing may join, so
/// every paragraph is a chunk, whatever the exact number reserved.
pub proof fn lemma_reserved_reaches_budget(sizing: Sizing, other: Sizing, pars: Seq<Seq<char>>)
    requires
        sizing.reserved >= sizing.budget,
        other.reserved >= other.budget,
    ensures
        groups(sizing, pars) == groups(other, pars),
        chunks(sizing, pars) == chunks(other, pars),
        chunks(sizing, pars).len() == pars.len(),
    decreases pars.len(),
{
    if pars.len() > 0 {
        assert(!may_join(sizing, pars, 1));
        assert(!may_join(other, pars, 1));
        lemma_reserved_reaches_budget(sizing, other, pars.skip(1));
        lemma_chunks_unfold(sizing, pars);
    } else {
        lemma_chunks_empty(sizing, pars);
    }
}

/// The budget test that a chunk passed: each paragraph after the first
/// passed it against the bundle of those before it in the chunk.
pub proof fn lemma_chunk_passed_budget_test(sizing: Sizing, pars: Seq<Seq<char>>, k: int, j: int)
    requires
        0 <= k < groups(sizing, pars).len(),
        1 <= j < groups(sizing, pars)[k].len(),
    ensures
        may_join(sizing, groups(sizing, pars)[k], j),
    decreases pars.len(),
{
    lemma_first_chunk_len(sizing, pars);
    let n = first_chunk_len(sizing, pars);
    if k == 0 {
        assert(may_join(sizing, pars, j));
        assert(pars.take(n).take(j) == pars.take(j));
    } else {
        lemma_chunk_passed_budget_test(sizing, pars.skip(n), k - 1, j);
    }
}

/// Chunks are as large as the budget test lets them be: the paragraph that
/// opens the next chunk failed the test against the whole of this one.
pub proof fn lemma_chunk_is_full(sizing: Sizing, pars: Seq<Seq<char>>, k: int)
    requires
        0 <= k,
        k + 1 < groups(sizing, pars).len(),
    ensures
        groups(sizing, pars)[k + 1].len() >= 1,
        !fits(sizing, bundle(groups(sizing, pars)[k]), groups(sizing, pars)[k + 1][0]),
    decreases pars.len(),
{
    lemma_first_chunk_len(sizing, pars);
    let n = first_chunk_len(sizing, pars);
    let rest = pars.skip(n);
    if k == 0 {
        lemma_first_chunk_len(sizing, rest);
        assert(rest[0] == pars[n]);
        assert(!may_join(sizing, pars, n));
    } else {
        lemma_chunk_is_full(sizing, rest, k - 1);
    }
}

/// Budget respected: a chunk that is not made of one paragraph that is
/// over the budget by itself stays under the budget, with the overhead of
/// its message, provided that the chunk costs no more tokens than its
/// last paragraph and what precedes it cost apart, with one overhead.
pub proof fn lemma_budget_respected(sizing: Sizing, pars: Seq<Seq<char>>, k: int)
    requires
        0 <= k < groups(sizing, pars).len(),
        ({
            let group = groups(sizing, pars)[k];
            &&& group.len() == 1 ==> !over_budget(sizing, group[0])
            &&& (sizing.count)(bundle(group)) <= (sizing.count)(bundle(group.drop_last())) + (
            sizing.count)(group.last()) + MESSAGE_OVERHEAD
        }),
    ensures
        sizing.reserved + (sizing.count)(chunks(sizing, pars)[k]) + MESSAGE_OVERHEAD
            < sizing.budget,
{
    lemma_no_data_loss(sizing, pars);
    lemma_no_empty_chunk(sizing, pars, k);
    let group = groups(sizing, pars)[k];
    if group.len() == 1 {
        assert(group.drop_last() == Seq::<Seq<char>>::empty());
    } else {
        lemma_chunk_passed_budget_test(sizing, pars, k, group.len() - 1);
        assert(group.take(group.len() - 1) == group.drop_last());
    }
}

/// Whether a system prompt and a text of these token counts, each with the
/// overhead of its message, are more than one request may hold.
pub open spec fn over_limit(prompt_tokens: nat, text_tokens: nat) -> bool {
    (prompt_tokens + MESSAGE_OVERHEAD) + (text_tokens + MESSAGE_OVERHEAD) > HARD_REQUEST_LIMIT
}

/// Whether a document of `text_tokens` tokens has to go out in chunks
/// beside a system prompt of `prompt_tokens` tokens.
pub fn needs_chunking(prompt_tokens: usize, text_tokens: usize) -> (chunked: bool)
    ensures
        chunked == over_limit(prompt_tokens as nat, text_tokens as nat),
{
    let total: u128 = prompt_tokens as u128 + text_tokens as u128 + 2 * (MESSAGE_OVERHEAD as u128);
    total > HARD_REQUEST_LIMIT as u128
}

/// Whether `next_tokens` more tokens may be added to a text of
/// `held_tokens` tokens: the budget test on counts.
pub fn within_budget(reserved: usize, held_tokens: usize, next_tokens: usize, budget: usize) -> (ok:
    bool)
    ensures
        ok == (reserved + (held_tokens + MESSAGE_OVERHEAD) + (next_tokens + MESSAGE_OVERHEAD)
            < budget),
{
    let total: u128 = reserved as u128 + held_tokens as u128 + next_tokens as u128 + 2
        * (MESSAGE_OVERHEAD as u128);
    total < budget as u128
}

} // verus!
