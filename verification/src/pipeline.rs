/* Copyright (C) 2023, 2024 Riccardo Sacchetto <rsacchetto(at)nexxontech(dot)it>
 *
 * This file is part of GPT MD Translator.
 *
 * GPT MD Translator is free software: you can redistribute it and/or modify it under the terms of
 * the GNU General Public License as published by the Free Software Foundation,
 * either version 3 of the License, or (at your option) any later version.
 *
 * GPT MD Translator is distributed in the hope that it will be useful, but WITHOUT ANY
 * WARRANTY; without even the implied warranty of MERCHANTABILITY or
 * FITNESS FOR A PARTICULAR PURPOSE. See the GNU General Public License for
 * more details.
 *
 * You should have received a copy of the GNU General Public License along with
 * GPT MD Translator. If not, see <https://www.gnu.org/licenses/>.
 */

//! The translation of a document as a state machine.
//!
//! The calls to the model are made by the program around this crate. The
//! pipeline tells it what to send and takes what came back: one call for a
//! document that fits in a request, else one call for each chunk, in the
//! order of the chunks and never two at a time. It puts the translations
//! together in that order and sums the usage that the calls report. The
//! first call that fails ends the run.

use crate::chunking::{
    chunks, lemma_chunks_are_few, lemma_reserved_reaches_budget, needs_chunking, over_limit,
    Sizing, CHUNK_BUDGET, MESSAGE_OVERHEAD,
};
use crate::md_chunker::{chunkable, is_chunkable, MDChunker};
use crate::paragraphs::{lemma_bundle_len, lemma_paragraphs_bundle, paragraphs};
use crate::response::{
    all_accepted, first_rejection, joined_contents, read_response, CallError, ChatResponse,
};
use crate::tokenizer::{CountingError, Tokenizer, MAX_TEXT_CHARS};
use crate::usage::{lemma_tally_bound, Tally, Usage, UsageTotal};
use vstd::pervasive::unreached;
use vstd::prelude::*;
use vstd::string::{StrSliceExecFns, StringExecFns};

verus! {

/// One call to the model: what to send.
#[derive(Clone, Debug, PartialEq, Eq)]
pub struct Request {
    pub system_prompt: String,
    pub body: String,
    pub model: String,
}

/// What became of the call that the pipeline asked for.
#[derive(Clone, Debug, PartialEq, Eq)]
pub enum Event {
    /// The service answered.
    Response(ChatResponse),
    /// The call failed on the way; the string is what the transport said.
    Failure(String),
}

/// Where a run stands after the outcome of a call.
pub enum Step {
    /// The run goes on: make this call and hand what becomes of it to the
    /// pipeline that comes with it.
    Call(Pipeline, Request),
    /// The run is complete: the translated document and the usage.
    Done(String, Option<UsageTotal>),
    /// The run has failed; there is no output.
    Abort(CallError),
}

/// A translation that the pipeline has accepted: its text and the usage
/// that came with it.
pub struct Reply {
    pub text: Seq<char>,
    pub usage: Option<Usage>,
}

/// Whether a document and a system prompt are short enough to be counted.
pub open spec fn countable(text: Seq<char>, system_prompt: Seq<char>) -> bool {
    chunkable(text) && system_prompt.len() <= MAX_TEXT_CHARS
}

/// The reply that an accepted response amounts to.
pub open spec fn reply_of(response: ChatResponse) -> Reply {
    Reply { text: joined_contents(response.choices@), usage: response.usage }
}

/// The texts of the replies, one after the other, in their order.
pub open spec fn output_of(replies: Seq<Reply>) -> Seq<char>
    decreases replies.len(),
{
    if replies.len() == 0 {
        Seq::empty()
    } else {
        output_of(replies.drop_last()) + replies.last().text
    }
}

/// What each reply reported, in the order of the replies.
pub open spec fn reports_of(replies: Seq<Reply>) -> Seq<Option<Usage>> {
    replies.map_values(|reply: Reply| reply.usage)
}

/// The bodies of the calls that a document takes, in their order: the
/// document itself where it fits in one request beside the system prompt,
/// else its chunks, gathered under the chunk budget with the tokens of the
/// system prompt and their overhead set aside.
pub open spec fn planned(
    count: spec_fn(Seq<char>) -> nat,
    system_prompt: Seq<char>,
    text: Seq<char>,
) -> Seq<Seq<char>> {
    if over_limit(count(system_prompt), count(text)) {
        chunks(
            Sizing {
                count,
                reserved: (count(system_prompt) + MESSAGE_OVERHEAD) as nat,
                budget: CHUNK_BUDGET as nat,
            },
            paragraphs(text),
        )
    } else {
        seq![text]
    }
}

/// The usage that a complete run returns. A chunked run returns the sum of
/// what its calls reported, even where none reported anything. A run of
/// one call returns what that call reported, if it reported anything.
pub open spec fn usage_of(chunked: bool, replies: Seq<Reply>) -> Option<Tally> {
    if chunked || replies.last().usage is Some {
        Some(Tally::of(reports_of(replies)))
    } else {
        None
    }
}

/// Order preservation: the output of a run of replies is the output of
/// any first part of the run followed by the output of the rest, so each
/// translation stands where its chunk stood.
pub proof fn lemma_output_keeps_order(front: Seq<Reply>, back: Seq<Reply>)
    ensures
        output_of(front + back) == output_of(front) + output_of(back),
    decreases back.len(),
{
    if back.len() == 0 {
        assert(front + back == front);
        assert(output_of(front) + output_of(back) == output_of(front));
    } else {
        lemma_output_keeps_order(front, back.drop_last());
        assert((front + back).drop_last() == front + back.drop_last());
        assert((front + back).last() == back.last());
        assert((output_of(front) + output_of(back.drop_last())) + back.last().text == output_of(front)
            + (output_of(back.drop_last()) + back.last().text));
    }
}

enum Stage {
    /// The one call for the whole document is out.
    Whole,
    /// The call for a chunk is out. The chunker holds the chunks that
    /// follow it; `output` and `usage` hold what the replies so far gave.
    Chunks { chunker: MDChunker, output: String, usage: UsageTotal },
}

/// A run of the pipeline with a call out: the outcome of that call is what
/// `step` takes next.
pub struct Pipeline {
    system_prompt: String,
    model: String,
    stage: Stage,
    counter: Ghost<spec_fn(Seq<char>) -> nat>,
    plan: Ghost<Seq<Seq<char>>>,
    received: Ghost<Seq<Reply>>,
}

impl Pipeline {
    #[verifier::type_invariant]
    spec fn well_formed(self) -> bool {
        match self.stage {
            Stage::Whole => {
                &&& self.plan@.len() == 1
                &&& self.received@.len() == 0
            },
            Stage::Chunks { chunker, output, usage } => {
                &&& self.received@.len() < self.plan@.len() <= MAX_TEXT_CHARS
                &&& chunker.remaining_chunks() == self.plan@.skip(self.received@.len() as int + 1)
                &&& output@ == output_of(self.received@)
                &&& usage@ == Tally::of(reports_of(self.received@))
            },
        }
    }

    /// Whether the document goes out in chunks.
    pub closed spec fn chunked(&self) -> bool {
        self.stage is Chunks
    }

    /// The token counter of the run.
    pub closed spec fn counter(&self) -> spec_fn(Seq<char>) -> nat {
        self.counter@
    }

    /// The system prompt that goes with every call.
    pub closed spec fn system_prompt(&self) -> Seq<char> {
        self.system_prompt@
    }

    /// The model that every call is made to.
    pub closed spec fn model(&self) -> Seq<char> {
        self.model@
    }

    /// The bodies of all the calls of the run, in their order.
    pub closed spec fn plan(&self) -> Seq<Seq<char>> {
        self.plan@
    }

    /// The replies accepted so far: the one at `k` answers the call for
    /// the body at `k` of the plan. The call that is out is the one for
    /// the body that follows them.
    pub closed spec fn received(&self) -> Seq<Reply> {
        self.received@
    }

    /// What holds of a run that has just started on `text`.
    pub open spec fn starts(
        &self,
        request: Request,
        text: Seq<char>,
        system_prompt: Seq<char>,
        model: Seq<char>,
    ) -> bool {
        &&& self.system_prompt() == system_prompt
        &&& self.model() == model
        &&& self.chunked() == over_limit((self.counter())(system_prompt), (self.counter())(text))
        &&& self.plan() == planned(self.counter(), system_prompt, text)
        &&& self.plan().len() >= 1
        &&& self.received() == Seq::<Reply>::empty()
        &&& request.system_prompt@ == system_prompt
        &&& request.body@ == self.plan()[0]
        &&& request.model@ == model
    }

    /// Whether the document goes out in chunks. The call that is out is
    /// for a body of the plan in either case.
    pub fn is_chunked(&self) -> (chunked: bool)
        ensures
            chunked == self.chunked(),
            self.received().len() < self.plan().len(),
    {
        proof {
            use_type_invariant(self);
        }
        match self.stage {
            Stage::Whole => false,
            Stage::Chunks { .. } => true,
        }
    }

    /// Starts a run with a counter that is set up already, and says what
    /// to send first. It fails only for a document or a system prompt that
    /// is too long to count.
    pub fn start_with(
        tokenizer: Tokenizer,
        text: String,
        system_prompt: String,
        model: String,
    ) -> (started: Result<(Pipeline, Request), CountingError>)
        ensures
            match started {
                Ok((pipeline, request)) => {
                    &&& countable(text@, system_prompt@)
                    &&& pipeline.counter() == tokenizer.counter()
                    &&& pipeline.starts(request, text@, system_prompt@, model@)
                },
                Err(error) => {
                    &&& error == CountingError::TextTooLong
                    &&& !countable(text@, system_prompt@)
                },
            },
    {
        if !is_chunkable(text.as_str()) || system_prompt.as_str().unicode_len() > MAX_TEXT_CHARS {
            return Err(CountingError::TextTooLong);
        }
        let ghost count = tokenizer.counter();
        let ghost plan = planned(count, system_prompt@, text@);
        let prompt_tokens = tokenizer.count_within(system_prompt.as_str());
        let text_tokens = tokenizer.count_within(text.as_str());
        if !needs_chunking(prompt_tokens, text_tokens) {
            let request = Request {
                system_prompt: system_prompt.clone(),
                body: text,
                model: model.clone(),
            };
            let pipeline = Pipeline {
                system_prompt,
                model,
                stage: Stage::Whole,
                counter: Ghost(count),
                plan: Ghost(plan),
                received: Ghost(Seq::empty()),
            };
            return Ok((pipeline, request));
        }
        let reserved = if prompt_tokens <= usize::MAX - MESSAGE_OVERHEAD {
            prompt_tokens + MESSAGE_OVERHEAD
        } else {
            usize::MAX
        };
        let mut chunker = MDChunker::new(&text, tokenizer, reserved);
        proof {
            let pars = paragraphs(text@);
            lemma_paragraphs_bundle(text@);
            if prompt_tokens > usize::MAX - MESSAGE_OVERHEAD {
                lemma_reserved_reaches_budget(
                    chunker.sizing(),
                    Sizing {
                        count,
                        reserved: (prompt_tokens + MESSAGE_OVERHEAD) as nat,
                        budget: CHUNK_BUDGET as nat,
                    },
                    pars,
                );
            }
            assert(chunker.remaining_chunks() == plan);
            lemma_chunks_are_few(chunker.sizing(), pars);
            lemma_bundle_len(pars, 0, pars.len() as int);
            assert(pars.subrange(0, pars.len() as int) == pars);
        }
        match chunker.next() {
            Some(body) => {
                proof {
                    assert(plan[0] == body@);
                    assert(chunker.remaining_chunks() == plan.skip(1));
                    assert(reports_of(Seq::<Reply>::empty()) == Seq::<Option<Usage>>::empty());
                }
                let request = Request {
                    system_prompt: system_prompt.clone(),
                    body,
                    model: model.clone(),
                };
                let pipeline = Pipeline {
                    system_prompt,
                    model,
                    stage: Stage::Chunks {
                        chunker,
                        output: String::new(),
                        usage: UsageTotal::zero(),
                    },
                    counter: Ghost(count),
                    plan: Ghost(plan),
                    received: Ghost(Seq::empty()),
                };
                Ok((pipeline, request))
            },
            // A document has a paragraph, so it has a chunk.
            None => unreached(),
        }
    }

    /// Sets up the counter and starts a run. Whether the counter can be set
    /// up is not up to this crate; where it can, the run starts as
    /// `start_with` says.
    pub fn start(text: String, system_prompt: String, model: String) -> (started: Result<
        (Pipeline, Request),
        CountingError,
    >)
        ensures
            match started {
                Ok((pipeline, request)) => {
                    &&& countable(text@, system_prompt@)
                    &&& pipeline.starts(request, text@, system_prompt@, model@)
                },
                Err(error) => error == CountingError::TextTooLong ==> !countable(
                    text@,
                    system_prompt@,
                ),
            },
    {
        match Tokenizer::cl100k() {
            Ok(tokenizer) => Pipeline::start_with(tokenizer, text, system_prompt, model),
            Err(error) => Err(error),
        }
    }

    /// Takes the outcome of the call that is out and says where the run
    /// stands.
    ///
    /// A failure, or a response with a choice that is not accepted, ends
    /// the run with that error. An accepted response is the reply to the
    /// body that was sent. Where the plan holds a further body, the run
    /// goes on with the call for it. Behind the last, the run is complete:
    /// its text is the texts of all the replies in the order of the plan,
    /// and its usage is the sum of what they reported.
    pub fn step(self, event: Event) -> (step: Step)
        ensures
            match event {
                Event::Failure(said) => step == Step::Abort(CallError::Transport(said)),
                Event::Response(response) => if all_accepted(response.choices@) {
                    let received = self.received().push(reply_of(response));
                    &&& received.len() <= self.plan().len()
                    &&& if received.len() < self.plan().len() {
                        &&& step matches Step::Call(next, request)
                        &&& next.system_prompt() == self.system_prompt()
                        &&& next.model() == self.model()
                        &&& next.counter() == self.counter()
                        &&& next.chunked() == self.chunked()
                        &&& next.plan() == self.plan()
                        &&& next.received() == received
                        &&& request.system_prompt@ == self.system_prompt()
                        &&& request.body@ == self.plan()[received.len() as int]
                        &&& request.model@ == self.model()
                    } else {
                        &&& step matches Step::Done(text, usage)
                        &&& text@ == output_of(received)
                        &&& match usage_of(self.chunked(), received) {
                            Some(tally) => usage matches Some(total) && total@ == tally,
                            None => usage is None,
                        }
                    }
                } else {
                    step matches Step::Abort(error) && first_rejection(response.choices@, error)
                },
            },
    {
        proof {
            use_type_invariant(&self);
        }
        let Pipeline { system_prompt, model, stage, counter, plan, received } = self;
        let response = match event {
            Event::Failure(said) => {
                return Step::Abort(CallError::Transport(said));
            },
            Event::Response(response) => response,
        };
        let translation = match read_response(response) {
            Ok(translation) => translation,
            Err(error) => {
                return Step::Abort(error);
            },
        };
        let ghost before = received@;
        let ghost after = before.push(reply_of(response));
        proof {
            assert(after.drop_last() == before);
            assert(reports_of(after) == reports_of(before).push(translation.usage));
            assert(reports_of(after).drop_last() == reports_of(before));
            assert(Tally::of(reports_of(after)) == Tally::of(reports_of(before)).plus(
                translation.usage,
            ));
        }
        match stage {
            Stage::Whole => {
                let reported = match translation.usage {
                    Some(report) => Some(UsageTotal::from_report(report)),
                    None => None,
                };
                proof {
                    assert(reports_of(before) == Seq::<Option<Usage>>::empty());
                    assert(Tally::of(reports_of(before)) == Tally::zero());
                    assert(output_of(before) + translation.text@ == translation.text@);
                }
                Step::Done(translation.text, reported)
            },
            Stage::Chunks { chunker, output, usage } => {
                let mut chunker = chunker;
                let mut output = output;
                output.append(translation.text.as_str());
                proof {
                    lemma_tally_bound(reports_of(after));
                    assert(after.len() * u32::MAX <= MAX_TEXT_CHARS * u32::MAX) by (nonlinear_arith)
                        requires
                            after.len() <= MAX_TEXT_CHARS,
                    ;
                }
                let usage = usage.add(translation.usage);
                let ghost waiting = chunker.remaining_chunks();
                match chunker.next() {
                    Some(body) => {
                        proof {
                            assert(waiting == plan@.skip(after.len() as int));
                            assert(waiting[0] == body@);
                            assert(chunker.remaining_chunks() == waiting.skip(1));
                            assert(waiting.skip(1) == plan@.skip(after.len() as int + 1));
                        }
                        let request = Request {
                            system_prompt: system_prompt.clone(),
                            body,
                            model: model.clone(),
                        };
                        let next = Pipeline {
                            system_prompt,
                            model,
                            stage: Stage::Chunks { chunker, output, usage },
                            counter,
                            plan,
                            received: Ghost(after),
                        };
                        Step::Call(next, request)
                    },
                    None => {
                        proof {
                            assert(waiting == plan@.skip(after.len() as int));
                            assert(plan@.skip(after.len() as int).len() == 0);
                        }
                        Step::Done(output, Some(usage))
                    },
                }
            },
        }
    }
}

} // verus!
