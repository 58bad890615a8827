/* Copyright (C) 2023, 2024 Riccardo Sacchetto <rsacchetto(at)nexxontech(dot)it>
 *
 * This file is part of GPT MD Translator.
 *
 * GPT MD Translator is free software: you can redistribute it and/or modify it under the terms of
 * the GNU General Public License as published by the Free Software Foundation,
 * either version 3 of the License, or (at your option) any later version.
 *
 * GPT MD Translator is distributed in the hope that it will be useful, but WITHOUT ANY
 * WARRANTY; without even the implied warranty of MERCHANTABILITY or
 * FITNESS FOR A PARTICULAR PURPOSE. See the GNU General Public License for
 * more details.
 *
 * You should have received a copy of the GNU General Public License along with
 * GPT MD Translator. If not, see <https://www.gnu.org/licenses/>.
 */

//! Token usage: what one call reports, and the sum over the calls of a run.

use vstd::prelude::*;

verus! {

/// The token counters that the service reports for one call.
#[derive(Clone, Copy, Debug, PartialEq, Eq, Structural)]
pub struct Usage {
    pub prompt_tokens: u32,
    pub completion_tokens: u32,
    pub total_tokens: u32,
}

/// The token counters of a run: field by field, the sum over its calls.
#[derive(Clone, Copy, Debug, PartialEq, Eq, Structural)]
pub struct UsageTotal {
    pub prompt_tokens: u64,
    pub completion_tokens: u64,
    pub total_tokens: u64,
}

/// Token counters as numbers without a bound.
pub struct Tally {
    pub prompt_tokens: nat,
    pub completion_tokens: nat,
    pub total_tokens: nat,
}

impl Tally {
    /// Nothing counted yet.
    pub open spec fn zero() -> Tally {
        Tally { prompt_tokens: 0, completion_tokens: 0, total_tokens: 0 }
    }

    /// This tally with one more report added field by field; a call that
    /// reported nothing changes nothing.
    pub open spec fn plus(self, report: Option<Usage>) -> Tally {
        match report {
            Some(usage) => Tally {
                prompt_tokens: self.prompt_tokens + usage.prompt_tokens as nat,
                completion_tokens: self.completion_tokens + usage.completion_tokens as nat,
                total_tokens: self.total_tokens + usage.total_tokens as nat,
            },
            None => self,
        }
    }

    /// The sum of a sequence of reports.
    pub open spec fn of(reports: Seq<Option<Usage>>) -> Tally
        decreases reports.len(),
    {
        if reports.len() == 0 {
            Tally::zero()
        } else {
            Tally::of(reports.drop_last()).plus(reports.last())
        }
    }

    /// Two tallies added field by field.
    pub open spec fn sum(self, other: Tally) -> Tally {
        Tally {
            prompt_tokens: self.prompt_tokens + other.prompt_tokens,
            completion_tokens: self.completion_tokens + other.completion_tokens,
            total_tokens: self.total_tokens + other.total_tokens,
        }
    }

    /// Whether no counter is above `bound`.
    pub open spec fn at_most(self, bound: int) -> bool {
        &&& self.prompt_tokens <= bound
        &&& self.completion_tokens <= bound
        &&& self.total_tokens <= bound
    }
}

impl View for UsageTotal {
    type V = Tally;

    open spec fn view(&self) -> Tally {
        Tally {
            prompt_tokens: self.prompt_tokens as nat,
            completion_tokens: self.completion_tokens as nat,
            total_tokens: self.total_tokens as nat,
        }
    }
}

/// Usage additivity: the sum over a run of calls is, field by field, the
/// sum over any first part of the run and the sum over the rest.
pub proof fn lemma_usage_additivity(front: Seq<Option<Usage>>, back: Seq<Option<Usage>>)
    ensures
        Tally::of(front + back) == Tally::of(front).sum(Tally::of(back)),
    decreases back.len(),
{
    if back.len() == 0 {
        assert(front + back == front);
    } else {
        lemma_usage_additivity(front, back.drop_last());
        assert((front + back).drop_last() == front + back.drop_last());
        assert((front + back).last() == back.last());
    }
}

/// The sum of reports grows by at most the largest report with each one.
pub proof fn lemma_tally_bound(reports: Seq<Option<Usage>>)
    ensures
        Tally::of(reports).at_most(reports.len() * u32::MAX),
    decreases reports.len(),
{
    if reports.len() > 0 {
        lemma_tally_bound(reports.drop_last());
        assert((reports.len() - 1) * u32::MAX + u32::MAX == reports.len() * u32::MAX)
            by (nonlinear_arith);
    }
}

impl UsageTotal {
    /// The counters of one report in the wider type.
    pub open spec fn of_report(usage: Usage) -> UsageTotal {
        UsageTotal {
            prompt_tokens: usage.prompt_tokens as u64,
            completion_tokens: usage.completion_tokens as u64,
            total_tokens: usage.total_tokens as u64,
        }
    }

    /// The counters before any call.
    pub fn zero() -> (total: UsageTotal)
        ensures
            total@ == Tally::zero(),
    {
        UsageTotal { prompt_tokens: 0, completion_tokens: 0, total_tokens: 0 }
    }

    /// The counters of one report, unchanged.
    pub fn from_report(usage: Usage) -> (total: UsageTotal)
        ensures
            total == UsageTotal::of_report(usage),
            total@ == Tally::zero().plus(Some(usage)),
    {
        UsageTotal {
            prompt_tokens: usage.prompt_tokens as u64,
            completion_tokens: usage.completion_tokens as u64,
            total_tokens: usage.total_tokens as u64,
        }
    }

    /// These counters with one more report added field by field.
    pub fn add(self, report: Option<Usage>) -> (sum: UsageTotal)
        requires
            self@.plus(report).at_most(u64::MAX as int),
        ensures
            sum@ == self@.plus(report),
    {
        match report {
            Some(usage) => UsageTotal {
                prompt_tokens: self.prompt_tokens + usage.prompt_tokens as u64,
                completion_tokens: self.completion_tokens + usage.completion_tokens as u64,
                total_tokens: self.total_tokens + usage.total_tokens as u64,
            },
            None => self,
        }
    }
}

} // verus!
