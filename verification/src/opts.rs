/* Copyright (C) 2023, 2024 Riccardo Sacchetto <rsacchetto(at)nexxontech(dot)it>
 *
 * This file is part of GPT MD Translator.
 *
 * GPT MD Translator is free software: you can redistribute it and/or modify it under the terms of
 * the GNU General Public License as published by the Free Software Foundation,
 * either version 3 of the License, or (at your option) any later version.
 *
 * GPT MD Translator is distributed in the hope that it will be useful, but WITHOUT ANY
 * WARRANTY; without even the implied warranty of MERCHANTABILITY or
 * FITNESS FOR A PARTICULAR PURPOSE. See the GNU General Public License for
 * more details.
 *
 * You should have received a copy of the GNU General Public License along with
 * GPT MD Translator. If not, see <https://www.gnu.org/licenses/>.
 */

//! The paths a run works on.

use vstd::prelude::*;
use vstd::std_specs::iter::IteratorSpec;
use vstd::string::{StrSliceExecFns, StringExecFns};

verus! {

/// The paths given on the command line, each with its default filled in.
#[derive(Clone, Debug)]
pub struct Opts {
    config_path: String,
    input_path: String,
    output_path: String,
}

/// What an [`Opts`] holds, as sequences of characters.
pub struct OptsView {
    pub config_path: Seq<char>,
    pub input_path: Seq<char>,
    pub output_path: Seq<char>,
}

impl View for Opts {
    type V = OptsView;

    closed spec fn view(&self) -> OptsView {
        OptsView {
            config_path: self.config_path@,
            input_path: self.input_path@,
            output_path: self.output_path@,
        }
    }
}

/// The configuration file read when none is named.
pub open spec fn default_config_path() -> Seq<char> {
    "Settings.toml"@
}

/// The document translated when none is named.
pub open spec fn default_input_path() -> Seq<char> {
    "./input.md"@
}

/// The word put before the extension of a derived output path.
pub open spec fn translated_tag() -> Seq<char> {
    "translated."@
}

/// Where the last piece of `path` begins when `path` is cut after each of
/// its dots: behind the last dot that is not the final character, or at 0
/// where there is no such dot.
pub open spec fn extension_start(path: Seq<char>) -> int
    decreases path.len(),
{
    if path.len() <= 1 {
        0
    } else if path[path.len() - 2] == '.' {
        path.len() - 1
    } else {
        extension_start(path.drop_last())
    }
}

/// The output path derived from an input path: the tag goes in front of
/// the last piece, so `notes.md` gives `notes.translated.md`.
pub open spec fn derived_output_path(input: Seq<char>) -> Seq<char> {
    let cut = extension_start(input);
    input.take(cut) + translated_tag() + input.skip(cut)
}

/// `extension_start` names the only position of `path` that follows a dot
/// (or is 0), is not the end of a non-empty path, and has no dot between it
/// and the final character.
pub proof fn lemma_extension_start(path: Seq<char>)
    ensures
        0 <= extension_start(path) <= path.len(),
        path.len() > 0 ==> extension_start(path) < path.len(),
        extension_start(path) > 0 ==> path[extension_start(path) - 1] == '.',
        forall|i: int| extension_start(path) <= i < path.len() - 1 ==> path[i] != '.',
    decreases path.len(),
{
    if path.len() > 1 && path[path.len() - 2] != '.' {
        let shorter = path.drop_last();
        lemma_extension_start(shorter);
        assert forall|i: int| extension_start(path) <= i < path.len() - 1 implies path[i]
            != '.' by {
            if i < shorter.len() - 1 {
                assert(shorter[i] == path[i]);
            }
        }
    }
}

impl Opts {
    /// Builds the options from what the command line gave; a path that was
    /// not given gets its default, and the default output path is empty.
    pub fn new(
        config_path: Option<String>,
        input_path: Option<String>,
        output_path: Option<String>,
    ) -> (opts: Opts)
        ensures
            opts@.config_path == match config_path {
                Some(path) => path@,
                None => default_config_path(),
            },
            opts@.input_path == match input_path {
                Some(path) => path@,
                None => default_input_path(),
            },
            opts@.output_path == match output_path {
                Some(path) => path@,
                None => Seq::<char>::empty(),
            },
    {
        let config_path = match config_path {
            Some(path) => path,
            None => String::from_str("Settings.toml"),
        };
        let input_path = match input_path {
            Some(path) => path,
            None => String::from_str("./input.md"),
        };
        let output_path = match output_path {
            Some(path) => path,
            None => String::new(),
        };
        Opts { config_path, input_path, output_path }
    }

    /// The path the translation is written to: the output path where one
    /// was given, else the one derived from the input path.
    pub fn resolved_output_path(&self) -> (path: String)
        requires
            self@.output_path.len() > 0 || self@.input_path.len() > 0,
        ensures
            path@ == if self@.output_path.len() > 0 {
                self@.output_path
            } else {
                derived_output_path(self@.input_path)
            },
    {
        if !self.output_path.as_str().is_empty() {
            return self.output_path.clone();
        }
        let input = self.input_path.as_str();
        let len = input.unicode_len();
        let mut chars = input.chars();
        let mut seen: usize = 0;
        let mut cut: usize = 0;
        let mut after_dot = false;
        loop
            invariant
                len == input@.len(),
                seen <= len,
                chars.remaining() == input@.skip(seen as int),
                cut == extension_start(input@.take(seen as int)),
                after_dot == (seen > 0 && input@[seen - 1] == '.'),
            ensures
                cut == extension_start(input@),
            decreases len - seen,
        {
            match chars.next() {
                Some(c) => {
                    assert(c == input@[seen as int]);
                    assert(input@.take(seen + 1).drop_last() == input@.take(seen as int));
                    if after_dot {
                        cut = seen;
                    }
                    after_dot = c == '.';
                    seen = seen + 1;
                },
                None => {
                    assert(input@.take(seen as int) == input@);
                    break ;
                },
            }
        }
        proof {
            lemma_extension_start(input@);
        }
        let mut path = String::from_str(input.substring_char(0, cut));
        path.append("translated.");
        path.append(input.substring_char(cut, len));
        proof {
            assert(input@.subrange(0, cut as int) == input@.take(cut as int));
            assert(input@.subrange(cut as int, len as int) == input@.skip(cut as int));
        }
        path
    }

    pub fn get_config_path(&self) -> (path: &String)
        ensures
            path@ == self@.config_path,
    {
        &self.config_path
    }

    pub fn get_input_path(&self) -> (path: &String)
        ensures
            path@ == self@.input_path,
    {
        &self.input_path
    }

    pub fn get_output_path(&self) -> (path: &String)
        ensures
            path@ == self@.output_path,
    {
        &self.output_path
    }
}

} // verus!
