//! A formatter for `html!`-style markup templates embedded in Rust source.
//!
//! The library lays out one parsed template at a time under a line-length
//! budget, keeps the comments and blank lines that the author wrote, and
//! splices the formatted templates back into the file they came from.
//! Finding the invocations in a file and parsing their templates is the
//! caller's part: it hands them over as [`collect::MaudMacro`] values. So is
//! rendering the host expressions in them: the library puts together the
//! files to render and takes back what the renderer made of them.

pub mod ast;
pub mod collect;
pub mod format;
pub mod line_length;
pub mod print;
pub mod source;
pub mod text;
pub mod unparse;

pub use crate::format::FormatOptions;

use crate::collect::MaudMacro;
use crate::format::{
    asked_all, format_processed, formatted_file, preprocess_source_for_ignore, preprocessed,
    requests,
};
use crate::source::{rope_of, rope_text};
use crate::text::texts;
use crate::unparse::Rendering;
use vstd::prelude::*;

verus! {

/// The number of times that the renderer is handed the files that are
/// still to be rendered. What is rendered can change the layout, and with
/// it the indentation at which a fragment is to be rendered.
pub const RENDER_ROUNDS: usize = 4;

/// `entry` holds what `render` gave for the file that it names.
pub open spec fn answers<R: Fn(&str) -> Option<String>>(render: R, entry: Rendering) -> bool {
    exists|file: &str| file@ == entry.text@ && #[trigger] render.ensures((file,), entry.rendered)
}

/// Every entry of `table` holds what `render` gave for the file that it
/// names.
pub open spec fn answered_by<R: Fn(&str) -> Option<String>>(
    render: R,
    table: Seq<Rendering>,
) -> bool {
    forall|i: int| 0 <= i < table.len() ==> answers(render, #[trigger] table[i])
}

/// The file of the entry of `table` at `at` was asked for when the entries
/// before some index up to `at` were all that the table held.
pub open spec fn asked_before(
    text: Seq<char>,
    macros: Seq<MaudMacro>,
    options: FormatOptions,
    table: Seq<Rendering>,
    at: int,
) -> bool {
    exists|held: int|
        0 <= held <= at && asked_all(text, macros, options, #[trigger] table.take(held), 0).contains(
            table[at].text@,
        )
}

/// Every file of `table` was asked for: nothing was handed to the renderer
/// but the files that printing the invocations `macros` of `text` asked for
/// with what the table held by then.
pub open spec fn all_asked(
    text: Seq<char>,
    macros: Seq<MaudMacro>,
    options: FormatOptions,
    table: Seq<Rendering>,
) -> bool {
    forall|at: int|
        0 <= at < table.len() ==> #[trigger] asked_before(text, macros, options, table, at)
}

/// Formats the templates of a source file. The lines that are marked to be
/// left alone are taken out first; `locate` then finds the invocations in
/// what is left and parses their templates. The files that wrap the host
/// fragments of the templates are handed to `render`, which gives the
/// rendered file or `None` where it fails, until none is missing or the
/// rounds are used up; the invocations are formatted with what it gave,
/// and the lines put back. Where `locate` fails, so does this, with the
/// same error.
pub fn try_fmt_file<
    E,
    F: FnOnce(&str) -> Result<Vec<MaudMacro>, E>,
    R: Fn(&str) -> Option<String>,
>(source: &str, options: &FormatOptions, locate: F, render: R) -> (r: Result<String, E>)
    requires
        forall|text: &str| #[trigger] locate.requires((text,)),
        forall|file: &str| #[trigger] render.requires((file,)),
    ensures
        r is Ok ==> exists|text: &str, macros: Vec<MaudMacro>, table: Vec<Rendering>|
            #![trigger locate.ensures((text,), Ok(macros)), answered_by(render, table@)]
            {
                &&& text@ == preprocessed(source@, 0).0
                &&& locate.ensures((text,), Ok(macros))
                &&& answered_by(render, table@)
                &&& all_asked(text@, macros@, *options, table@)
                &&& asked_all(text@, macros@, *options, table@, 0).len() == 0 || table@.len()
                    >= RENDER_ROUNDS
                &&& r->Ok_0@ == formatted_file(
                    text@,
                    macros@,
                    preprocessed(source@, 0).1,
                    *options,
                    table@,
                )
            },
        r is Err ==> exists|text: &str|
            text@ == preprocessed(source@, 0).0 && #[trigger] locate.ensures(
                (text,),
                Err(r->Err_0),
            ),
{
    let (processed, ignore_info) = preprocess_source_for_ignore(source);
    let text = processed.as_str();
    match locate(text) {
        Ok(macros) => {
            assert(locate.ensures((text,), Ok(macros)));
            let rope = rope_of(text);
            let mut table: Vec<Rendering> = Vec::new();
            let mut round: usize = 0;
            let mut complete = false;
            while round < RENDER_ROUNDS && !complete
                invariant
                    round <= RENDER_ROUNDS,
                    round <= table.len(),
                    rope_text(rope) == text@,
                    answered_by(render, table@),
                    all_asked(text@, macros@, *options, table@),
                    complete ==> asked_all(text@, macros@, *options, table@, 0).len() == 0,
                    forall|file: &str| #[trigger] render.requires((file,)),
                decreases
                        RENDER_ROUNDS - round,
                        if complete {
                            0int
                        } else {
                            1int
                        },
            {
                let asked = requests(&rope, &macros, options, &table);
                let ghost start = table@;
                if asked.len() == 0 {
                    complete = true;
                } else {
                    let mut k: usize = 0;
                    assert(table@.take(start.len() as int) == start);
                    while k < asked.len()
                        invariant
                            k <= asked.len(),
                            round + k <= table.len(),
                            start.len() <= table.len(),
                            table@.take(start.len() as int) == start,
                            texts(asked@) == asked_all(text@, macros@, *options, start, 0),
                            answered_by(render, table@),
                            all_asked(text@, macros@, *options, table@),
                            forall|file: &str| #[trigger] render.requires((file,)),
                        decreases asked.len() - k,
                    {
                        let file = asked[k].clone();
                        let name = file.as_str();
                        let rendered = render(name);
                        assert(render.ensures((name,), rendered));
                        let ghost before = table@;
                        let entry = Rendering { text: file, rendered };
                        assert(answers(render, entry));
                        table.push(entry);
                        assert forall|i: int| 0 <= i < table@.len() implies answers(
                            render,
                            #[trigger] table@[i],
                        ) by {
                            if i < before.len() {
                                assert(table@[i] == before[i]);
                            }
                        }
                        assert(table@.take(start.len() as int) == start) by {
                            assert(table@.take(start.len() as int) == before.take(
                                start.len() as int,
                            ));
                        }
                        assert forall|at: int| 0 <= at < table@.len() implies #[trigger] asked_before(
                            text@,
                            macros@,
                            *options,
                            table@,
                            at,
                        ) by {
                            if at < before.len() {
                                assert(asked_before(text@, macros@, *options, before, at));
                                let held = choose|held: int|
                                    0 <= held <= at && asked_all(
                                        text@,
                                        macros@,
                                        *options,
                                        #[trigger] before.take(held),
                                        0,
                                    ).contains(before[at].text@);
                                assert(table@.take(held) == before.take(held));
                                assert(table@[at] == before[at]);
                            } else {
                                assert(texts(asked@)[k as int] == file@);
                                assert(asked_all(text@, macros@, *options, start, 0).contains(
                                    file@,
                                ));
                            }
                        }
                        k += 1;
                    }
                    round += 1;
                }
            }
            let formatted = format_processed(text, &macros, &ignore_info, options, &table);
            Ok(formatted)
        },
        Err(e) => {
            let failed: Result<String, E> = Err(e);
            assert(locate.ensures((text,), Err(failed->Err_0)));
            failed
        },
    }
}

} // verus!
