/* Copyright (C) 2023, 2024 Riccardo Sacchetto <rsacchetto(at)nexxontech(dot)it>
 *
 * This file is part of GPT MD Translator.
 *
 * GPT MD Translator is free software: you can redistribute it and/or modify it under the terms of
 * the GNU General Public License as published by the Free Software Foundation,
 * either version 3 of the License, or (at your option) any later version.
 *
 * GPT MD Translator is distributed in the hope that it will be useful, but WITHOUT ANY
 * WARRANTY; without even the implied warranty of MERCHANTABILITY or
 * FITNESS FOR A PARTICULAR PURPOSE. See the GNU General Public License for
 * more details.
 *
 * You should have received a copy of the GNU General Public License along with
 * GPT MD Translator. If not, see <https://www.gnu.org/licenses/>.
 */

//! Reading what a translation call brought back.
//!
//! A response holds any number of choices. Each must have ended at a
//! natural stop and must carry text, and an empty text is none; then the
//! texts, each followed by a newline, are the translation. The first choice
//! that fails either test fails the whole call.

use crate::usage::Usage;
use vstd::prelude::*;
use vstd::string::StringExecFns;

verus! {

/// Why the model stopped writing a choice.
#[derive(Clone, Copy, Debug, PartialEq, Eq, Structural)]
pub enum FinishReason {
    Stop,
    Length,
    ToolCalls,
    ContentFilter,
    FunctionCall,
}

/// One choice of a response: why it ended, if the service said so, and its
/// text, if it has one.
#[derive(Clone, Debug, PartialEq, Eq)]
pub struct Choice {
    pub finish_reason: Option<FinishReason>,
    pub content: Option<String>,
}

/// What the service answered to one call.
#[derive(Clone, Debug, PartialEq, Eq)]
pub struct ChatResponse {
    pub choices: Vec<Choice>,
    pub usage: Option<Usage>,
}

/// The translation that one call gave, with the usage it reported.
#[derive(Clone, Debug, PartialEq, Eq)]
pub struct Translation {
    pub text: String,
    pub usage: Option<Usage>,
}

/// Why a translation call failed.
#[derive(Clone, Debug, PartialEq, Eq)]
pub enum CallError {
    /// The request did not get through, or no response came back; the
    /// string is what the transport said.
    Transport(String),
    /// A choice ended otherwise than at a natural stop.
    UnacceptableFinishReason,
    /// A choice carries no text: its content is missing or empty.
    EmptyResponse,
}

/// Whether a choice ended at a natural stop and carries text.
pub open spec fn accepted(choice: Choice) -> bool {
    &&& choice.finish_reason == Some(FinishReason::Stop)
    &&& choice.content matches Some(content)
    &&& content@.len() > 0
}

/// What is wrong with a choice that is not accepted. How it ended is
/// looked at before its text.
pub open spec fn rejection(choice: Choice) -> CallError {
    if choice.finish_reason != Some(FinishReason::Stop) {
        CallError::UnacceptableFinishReason
    } else {
        CallError::EmptyResponse
    }
}

/// Whether every one of the choices is accepted.
pub open spec fn all_accepted(choices: Seq<Choice>) -> bool {
    forall|i: int| 0 <= i < choices.len() ==> accepted(#[trigger] choices[i])
}

/// Whether `error` is what is wrong with the first of the choices that is
/// not accepted.
pub open spec fn first_rejection(choices: Seq<Choice>, error: CallError) -> bool {
    exists|i: int|
        {
            &&& 0 <= i < choices.len()
            &&& !accepted(#[trigger] choices[i])
            &&& forall|j: int| 0 <= j < i ==> accepted(#[trigger] choices[j])
            &&& error == rejection(choices[i])
        }
}

/// The texts of the choices in their order, each followed by a newline.
pub open spec fn joined_contents(choices: Seq<Choice>) -> Seq<char>
    decreases choices.len(),
{
    if choices.len() == 0 {
        Seq::empty()
    } else {
        joined_contents(choices.drop_last()) + choices.last().content->0@ + seq!['\n']
    }
}

impl CallError {
    /// The message that goes with the error.
    pub fn message(&self) -> (text: String)
        ensures
            text@ == match *self {
                CallError::Transport(said) => said@,
                CallError::UnacceptableFinishReason => "Received an unacceptable finish reason!"@,
                CallError::EmptyResponse => "Received an empty response!"@,
            },
    {
        match self {
            CallError::Transport(said) => said.clone(),
            CallError::UnacceptableFinishReason => String::from_str(
                "Received an unacceptable finish reason!",
            ),
            CallError::EmptyResponse => String::from_str("Received an empty response!"),
        }
    }
}

/// Joins the texts of the choices, or names what is wrong with the first
/// choice that is not accepted.
pub fn collect_choices(choices: &Vec<Choice>) -> (collected: Result<String, CallError>)
    ensures
        match collected {
            Ok(text) => all_accepted(choices@) && text@ == joined_contents(choices@),
            Err(error) => first_rejection(choices@, error),
        },
{
    let mut text = String::new();
    let mut i: usize = 0;
    while i < choices.len()
        invariant
            i <= choices.len(),
            forall|j: int| 0 <= j < i ==> accepted(#[trigger] choices[j]),
            text@ == joined_contents(choices@.take(i as int)),
        decreases choices.len() - i,
    {
        let choice = &choices[i];
        match choice.finish_reason {
            Some(FinishReason::Stop) => {},
            _ => {
                assert(!accepted(choices[i as int]));
                return Err(CallError::UnacceptableFinishReason);
            },
        }
        match &choice.content {
            Some(content) if !content.as_str().is_empty() => {
                text.append(content.as_str());
                text.append("\n");
                proof {
                    reveal_strlit("\n");
                    assert("\n"@ == seq!['\n']);
                    assert(choices@.take(i + 1).drop_last() == choices@.take(i as int));
                }
            },
            _ => {
                assert(!accepted(choices[i as int]));
                return Err(CallError::EmptyResponse);
            },
        }
        i = i + 1;
    }
    assert(choices@.take(i as int) == choices@);
    Ok(text)
}

/// Reads a response: the translation with the usage that came with it,
/// or the error of the first choice that is not accepted.
pub fn read_response(response: ChatResponse) -> (read: Result<Translation, CallError>)
    ensures
        match read {
            Ok(translation) => {
                &&& all_accepted(response.choices@)
                &&& translation.text@ == joined_contents(response.choices@)
                &&& translation.usage == response.usage
            },
            Err(error) => first_rejection(response.choices@, error),
        },
{
    match collect_choices(&response.choices) {
        Ok(text) => Ok(Translation { text, usage: response.usage }),
        Err(error) => Err(error),
    }
}

} // verus!
