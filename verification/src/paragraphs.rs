/* Copyright (C) 2023, 2024 Riccardo Sacchetto <rsacchetto(at)nexxontech(dot)it>
 *
 * This file is part of GPT MD Translator.
 *
 * GPT MD Translator is free software: you can redistribute it and/or modify it under the terms of
 * the GNU General Public License as published by the Free Software Foundation,
 * either version 3 of the License, or (at your option) any later version.
 *
 * GPT MD Translator is distributed in the hope that it will be useful, but WITHOUT ANY
 * WARRANTY; without even the implied warranty of MERCHANTABILITY or
 * FITNESS FOR A PARTICULAR PURPOSE. See the GNU General Public License for
 * more details.
 *
 * You should have received a copy of the GNU General Public License along with
 * GPT MD Translator. If not, see <https://www.gnu.org/licenses/>.
 */

//! Cutting a document into its paragraphs.
//!
//! Paragraphs are what lies between blank lines: the document is cut at
//! each pair of newline characters, found from the left, and the pair
//! itself belongs to no paragraph.

use vstd::prelude::*;
use vstd::std_specs::iter::IteratorSpec;

verus! {

/// The two newline characters that part one paragraph from the next.
pub open spec fn delimiter() -> Seq<char> {
    seq!['\n', '\n']
}

/// Whether a delimiter begins at position `at` of `text`.
pub open spec fn break_at(text: Seq<char>, at: int) -> bool {
    0 <= at && at + 1 < text.len() && text[at] == '\n' && text[at + 1] == '\n'
}

/// The position of the first delimiter in `text`, or the length of `text`
/// where it holds none.
pub open spec fn first_break(text: Seq<char>) -> int
    decreases text.len(),
{
    if text.len() < 2 {
        text.len() as int
    } else if text[0] == '\n' && text[1] == '\n' {
        0
    } else {
        1 + first_break(text.skip(1))
    }
}

/// The paragraphs of `text`, in their order: what precedes the first
/// delimiter, then the paragraphs of what follows it. A text without a
/// delimiter, the empty one too, is one paragraph.
pub open spec fn paragraphs(text: Seq<char>) -> Seq<Seq<char>>
    decreases text.len(),
{
    let cut = first_break(text);
    if 0 <= cut && cut + 2 <= text.len() {
        seq![text.take(cut)] + paragraphs(text.skip(cut + 2))
    } else {
        seq![text]
    }
}

/// The paragraphs of `pars` written out again, each one followed by the
/// delimiter.
pub open spec fn bundle(pars: Seq<Seq<char>>) -> Seq<char>
    decreases pars.len(),
{
    if pars.len() == 0 {
        Seq::empty()
    } else {
        bundle(pars.drop_last()) + pars.last() + delimiter()
    }
}

/// `first_break` is the leftmost position at which a delimiter begins.
pub proof fn lemma_first_break(text: Seq<char>)
    ensures
        0 <= first_break(text) <= text.len(),
        forall|at: int| 0 <= at < first_break(text) ==> !break_at(text, at),
        first_break(text) < text.len() ==> break_at(text, first_break(text)),
    decreases text.len(),
{
    if text.len() >= 2 && !(text[0] == '\n' && text[1] == '\n') {
        let rest = text.skip(1);
        lemma_first_break(rest);
        assert forall|at: int| 0 <= at < first_break(text) implies !break_at(text, at) by {
            if at >= 1 {
                assert(!break_at(rest, at - 1));
                assert(rest[at - 1] == text[at]);
                if at + 1 < text.len() {
                    assert(rest[at] == text[at + 1]);
                }
            }
        }
        if first_break(text) < text.len() {
            let cut = first_break(rest);
            assert(break_at(rest, cut));
            assert(rest[cut] == text[cut + 1]);
            assert(rest[cut + 1] == text[cut + 2]);
        }
    }
}

/// A position with a delimiter, or the end of the text, before which no
/// delimiter begins is the one `first_break` names.
pub proof fn lemma_first_break_unique(text: Seq<char>, at: int)
    requires
        0 <= at <= text.len(),
        forall|before: int| 0 <= before < at ==> !break_at(text, before),
        at < text.len() ==> break_at(text, at),
    ensures
        first_break(text) == at,
{
    lemma_first_break(text);
    let cut = first_break(text);
    if cut < at {
        assert(break_at(text, cut));
    } else if at < cut {
        assert(!break_at(text, at));
    }
}

/// No paragraph holds a delimiter, and a paragraph that is followed by
/// another does not end in a newline: the delimiter behind it is the
/// leftmost one that could be cut there.
pub proof fn lemma_paragraphs_hold_no_break(text: Seq<char>, k: int)
    requires
        0 <= k < paragraphs(text).len(),
    ensures
        forall|at: int| !break_at(paragraphs(text)[k], at),
        k + 1 < paragraphs(text).len() && paragraphs(text)[k].len() > 0 ==> paragraphs(
            text,
        )[k].last() != '\n',
    decreases text.len(),
{
    lemma_first_break(text);
    let cut = first_break(text);
    if cut + 2 <= text.len() {
        if k == 0 {
            let head = text.take(cut);
            assert forall|at: int| !break_at(head, at) by {
                if break_at(head, at) {
                    assert(head[at] == text[at] && head[at + 1] == text[at + 1]);
                    assert(break_at(text, at));
                }
            }
            if cut > 0 {
                assert(!break_at(text, cut - 1));
                assert(head.last() == text[cut - 1]);
            }
        } else {
            lemma_paragraphs_hold_no_break(text.skip(cut + 2), k - 1);
        }
    } else {
        assert forall|at: int| !break_at(text, at) by {
            if break_at(text, at) {
                assert(at < cut);
            }
        }
    }
}

/// Where the first delimiter at or after `start` begins at `at`, the text
/// from `start` on is the paragraph up to `at` and then the paragraphs of
/// what follows the delimiter.
proof fn lemma_paragraphs_cut(text: Seq<char>, start: int, at: int)
    requires
        0 <= start <= at,
        break_at(text, at),
        forall|before: int| start <= before < at ==> !break_at(text, before),
    ensures
        paragraphs(text.skip(start)) == seq![text.subrange(start, at)] + paragraphs(
            text.skip(at + 2),
        ),
{
    let tail = text.skip(start);
    assert forall|before: int| 0 <= before < at - start implies !break_at(tail, before) by {
        assert(!break_at(text, start + before));
        assert(tail[before] == text[start + before]);
        assert(tail[before + 1] == text[start + before + 1]);
    }
    assert(break_at(tail, at - start)) by {
        assert(tail[at - start] == text[at]);
        assert(tail[at - start + 1] == text[at + 1]);
    }
    lemma_first_break_unique(tail, at - start);
    assert(tail.take(at - start) == text.subrange(start, at));
    assert(tail.skip(at - start + 2) == text.skip(at + 2));
}

/// Where no delimiter begins at or after `start`, the text from `start` on
/// is one paragraph.
proof fn lemma_paragraphs_end(text: Seq<char>, start: int)
    requires
        0 <= start <= text.len(),
        forall|at: int| start <= at ==> !break_at(text, at),
    ensures
        paragraphs(text.skip(start)) == seq![text.skip(start)],
{
    let tail = text.skip(start);
    assert forall|before: int| 0 <= before < tail.len() implies !break_at(tail, before) by {
        assert(!break_at(text, start + before));
        if before + 1 < tail.len() {
            assert(tail[before] == text[start + before]);
            assert(tail[before + 1] == text[start + before + 1]);
        }
    }
    lemma_first_break_unique(tail, tail.len() as int);
}

/// Bundling two runs of paragraphs one after the other is bundling them
/// as one run.
pub proof fn lemma_bundle_concat(front: Seq<Seq<char>>, back: Seq<Seq<char>>)
    ensures
        bundle(front + back) == bundle(front) + bundle(back),
    decreases back.len(),
{
    if back.len() == 0 {
        assert(front + back == front);
        assert(bundle(front) + bundle(back) == bundle(front));
    } else {
        lemma_bundle_concat(front, back.drop_last());
        assert((front + back).drop_last() == front + back.drop_last());
        assert((front + back).last() == back.last());
        assert(bundle(front + back) == (bundle(front) + bundle(back.drop_last())) + back.last()
            + delimiter());
        assert((bundle(front) + bundle(back.drop_last())) + back.last() + delimiter() == bundle(
            front,
        ) + (bundle(back.drop_last()) + back.last() + delimiter()));
    }
}

/// A bundle of one paragraph is the paragraph and the delimiter.
pub proof fn lemma_bundle_one(par: Seq<char>)
    ensures
        bundle(seq![par]) == par + delimiter(),
{
    let one = seq![par];
    assert(one.drop_last() == Seq::<Seq<char>>::empty());
    assert(bundle(one.drop_last()) + one.last() + delimiter() == par + delimiter());
}

/// Adding paragraph `k` to the bundle of the `k` before it gives the
/// bundle of the first `k + 1`.
pub proof fn lemma_bundle_next(pars: Seq<Seq<char>>, k: int)
    requires
        0 <= k < pars.len(),
    ensures
        bundle(pars.take(k + 1)) == bundle(pars.take(k)) + pars[k] + delimiter(),
{
    assert(pars.take(k + 1).drop_last() == pars.take(k));
}

/// No run of paragraphs is longer, bundled, than the bundle of them all.
pub proof fn lemma_bundle_len(pars: Seq<Seq<char>>, from: int, to: int)
    requires
        0 <= from <= to <= pars.len(),
    ensures
        bundle(pars.subrange(from, to)).len() <= bundle(pars).len(),
        from < to ==> pars[from].len() + 2 <= bundle(pars.subrange(from, to)).len(),
        2 * (to - from) <= bundle(pars.subrange(from, to)).len(),
    decreases to - from,
{
    let run = pars.subrange(from, to);
    assert(pars == pars.take(from) + run + pars.skip(to));
    lemma_bundle_concat(pars.take(from) + run, pars.skip(to));
    lemma_bundle_concat(pars.take(from), run);
    if from < to {
        lemma_bundle_len(pars, from + 1, to);
        assert(run == seq![pars[from]] + pars.subrange(from + 1, to));
        lemma_bundle_concat(seq![pars[from]], pars.subrange(from + 1, to));
        lemma_bundle_one(pars[from]);
    }
}

/// Writing the paragraphs of a text out again gives the text back, with
/// one delimiter behind it: cutting loses nothing.
pub proof fn lemma_paragraphs_bundle(text: Seq<char>)
    ensures
        paragraphs(text).len() >= 1,
        bundle(paragraphs(text)) == text + delimiter(),
    decreases text.len(),
{
    lemma_first_break(text);
    let cut = first_break(text);
    if cut + 2 <= text.len() {
        let head = text.take(cut);
        let rest = text.skip(cut + 2);
        lemma_paragraphs_bundle(rest);
        lemma_bundle_concat(seq![head], paragraphs(rest));
        lemma_bundle_one(head);
        assert(text == head + delimiter() + rest);
        assert((head + delimiter()) + (rest + delimiter()) == (head + delimiter() + rest)
            + delimiter());
    } else {
        lemma_bundle_one(text);
    }
}

/// Calls `String::push`, which appends one character to the string.
#[verifier::external_body]
fn push_char(text: &mut String, c: char)
    ensures
        final(text)@ == old(text)@.push(c),
{
    text.push(c)
}

/// Cuts `text` into its paragraphs.
pub fn split_paragraphs(text: &str) -> (pars: Vec<String>)
    ensures
        pars.deep_view() == paragraphs(text@),
{
    let mut pars: Vec<String> = Vec::new();
    let mut current = String::new();
    // Whether the last character read is a newline that `current` does not hold yet.
    let mut held_newline = false;
    let mut chars = text.chars();
    let ghost mut start: int = 0;
    let ghost mut seen: int = 0;
    proof {
        assert(text@.skip(0) == text@);
        assert(pars.deep_view() == Seq::<Seq<char>>::empty());
    }
    loop
        invariant
            0 <= start <= seen <= text@.len(),
            chars.remaining() == text@.skip(seen),
            held_newline == (seen > start && text@[seen - 1] == '\n'),
            current@ == text@.subrange(start, if held_newline { seen - 1 } else { seen }),
            forall|at: int| start <= at && at + 1 < seen ==> !break_at(text@, at),
            paragraphs(text@) == pars.deep_view() + paragraphs(text@.skip(start)),
        ensures
            seen == text@.len(),
        decreases text@.len() - seen,
    {
        match chars.next() {
            Some(c) => {
                assert(c == text@[seen]);
                if c == '\n' && held_newline {
                    proof {
                        lemma_paragraphs_cut(text@, start, seen - 1);
                        let rest = paragraphs(text@.skip(seen + 1));
                        assert(pars.deep_view().push(current@) + rest == pars.deep_view() + (
                        seq![current@] + rest));
                    }
                    let ghost before = pars.deep_view();
                    pars.push(current);
                    assert(pars.deep_view() == before.push(current@));
                    current = String::new();
                    held_newline = false;
                    proof {
                        start = seen + 1;
                    }
                } else if c == '\n' {
                    held_newline = true;
                } else {
                    if held_newline {
                        push_char(&mut current, '\n');
                        held_newline = false;
                    }
                    push_char(&mut current, c);
                }
                proof {
                    seen = seen + 1;
                }
            },
            None => {
                break ;
            },
        }
    }
    if held_newline {
        push_char(&mut current, '\n');
    }
    proof {
        assert(current@ == text@.skip(start));
        lemma_paragraphs_end(text@, start);
    }
    let ghost before = pars.deep_view();
    pars.push(current);
    assert(pars.deep_view() == before.push(current@));
    pars
}

} // verus!
