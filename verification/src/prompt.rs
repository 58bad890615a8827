/* Copyright (C) 2023, 2024 Riccardo Sacchetto <rsacchetto(at)nexxontech(dot)it>
 *
 * This file is part of GPT MD Translator.
 *
 * GPT MD Translator is free software: you can redistribute it and/or modify it under the terms of
 * the GNU General Public License as published by the Free Software Foundation,
 * either version 3 of the License, or (at your option) any later version.
 *
 * GPT MD Translator is distributed in the hope that it will be useful, but WITHOUT ANY
 * WARRANTY; without even the implied warranty of MERCHANTABILITY or
 * FITNESS FOR A PARTICULAR PURPOSE. See the GNU General Public License for
 * more details.
 *
 * You should have received a copy of the GNU General Public License along with
 * GPT MD Translator. If not, see <https://www.gnu.org/licenses/>.
 */

//! The system prompt that goes with every request.

use vstd::prelude::*;
use vstd::string::StringExecFns;

verus! {

/// The instruction given to the model where the configuration holds none.
pub const DEFAULT_SYS_PROMPT_BASE: &'static str =
    "You shall translate the following markdown to Italian, preserving the existing formatting and avoiding any other output.";

/// A term between double quotes.
pub open spec fn quoted(term: Seq<char>) -> Seq<char> {
    seq!['"'] + term + seq!['"']
}

/// The terms, each between double quotes, with a comma and a space
/// between one and the next.
pub open spec fn quoted_terms(terms: Seq<Seq<char>>) -> Seq<char>
    decreases terms.len(),
{
    if terms.len() == 0 {
        Seq::empty()
    } else if terms.len() == 1 {
        quoted(terms[0])
    } else {
        quoted_terms(terms.drop_last()) + seq![',', ' '] + quoted(terms.last())
    }
}

/// The system prompt made of an instruction and the terms that are to be
/// left as they are. Without such terms it is the instruction alone.
pub open spec fn system_prompt_of(base: Seq<char>, terms: Seq<Seq<char>>) -> Seq<char> {
    if terms.len() == 0 {
        base
    } else {
        base + " Do not translate "@ + quoted_terms(terms) + seq!['.']
    }
}

/// Builds the system prompt from the configured instruction, or the
/// default one, and the list of terms that are not to be translated.
pub fn system_prompt(base: Option<String>, ignore_list: &Vec<String>) -> (prompt: String)
    ensures
        prompt@ == system_prompt_of(
            match base {
                Some(text) => text@,
                None => DEFAULT_SYS_PROMPT_BASE@,
            },
            ignore_list.deep_view(),
        ),
{
    let mut prompt = match base {
        Some(text) => text,
        None => String::from_str(DEFAULT_SYS_PROMPT_BASE),
    };
    if ignore_list.len() == 0 {
        return prompt;
    }
    let ghost start = prompt@;
    let ghost terms = ignore_list.deep_view();
    prompt.append(" Do not translate ");
    let mut i: usize = 0;
    proof {
        reveal_strlit(", ");
        reveal_strlit("\"");
        reveal_strlit(".");
        assert(quoted_terms(terms.take(0)) == Seq::<char>::empty());
    }
    while i < ignore_list.len()
        invariant
            i <= ignore_list.len(),
            terms == ignore_list.deep_view(),
            ", "@ == seq![',', ' '],
            "\""@ == seq!['"'],
            prompt@ == start + " Do not translate "@ + quoted_terms(terms.take(i as int)),
        decreases ignore_list.len() - i,
    {
        if i > 0 {
            prompt.append(", ");
        }
        prompt.append("\"");
        prompt.append(ignore_list[i].as_str());
        prompt.append("\"");
        proof {
            assert(terms[i as int] == ignore_list[i as int]@);
            assert(terms.take(i + 1).drop_last() == terms.take(i as int));
            assert(terms.take(i + 1).last() == terms[i as int]);
            if i == 0 {
                assert(terms.take(1)[0] == terms[0]);
            }
        }
        i = i + 1;
    }
    prompt.append(".");
    assert(terms.take(i as int) == terms);
    prompt
}

} // verus!
