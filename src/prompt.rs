//! Prompting over a finite script of operator lines. Each prompt reads lines
//! until one is acceptable; running out of lines ends it with `None`.
use vstd::prelude::*;
use crate::scalar::parses;
use crate::schema::{ALLOWED_DATASET, CONFIG_SUFFIX};
use crate::text::{ends_with_text, has_suffix, same_text, trim_text, trimmed};
use crate::tuple::{pair_reads, pair_refused, parse_tuple};

verus! {

/// The lines that an operator enters, and how many of them have been read.
pub struct Script {
    pub lines: Vec<String>,
    pub pos: usize,
}

impl Script {
    pub open spec fn wf(&self) -> bool {
        self.pos <= self.lines@.len()
    }

    pub open spec fn len(&self) -> int {
        self.lines@.len() as int
    }

    /// A script that starts at its first line.
    pub fn new(lines: Vec<String>) -> (r: Script)
        ensures
            r.wf(),
            r.lines@ == lines@,
            r.pos == 0,
    {
        Script { lines, pos: 0 }
    }
}

/// Line `j` as a prompt sees it: trimmed.
pub open spec fn line_at(lines: Seq<String>, j: int) -> Seq<char> {
    trimmed(lines[j]@)
}

/// `s` has read on from `old` and kept its lines.
pub open spec fn reads_on(old: Script, s: Script) -> bool {
    s.wf() && s.lines@ == old.lines@ && old.pos <= s.pos
}

/// Every line in `from .. to` was refused by `f`.
pub open spec fn all_refused<T, F: Fn(&str) -> Option<T>>(
    f: &F,
    lines: Seq<String>,
    from: int,
    to: int,
) -> bool {
    forall|j: int| from <= j < to ==> parses(f, #[trigger] line_at(lines, j), None::<T>)
}

/// Lines `from .. to` gave `v`: `f` refused all but the last, which it read as `v`.
pub open spec fn value_read<T, F: Fn(&str) -> Option<T>>(
    f: &F,
    lines: Seq<String>,
    from: int,
    to: int,
    v: T,
) -> bool {
    from < to && all_refused(f, lines, from, to - 1) && parses(f, line_at(lines, to - 1), Some(v))
}

/// Lines `from .. to` gave `v` by the spelling `spells`: no line but the last
/// spells a value, and the last spells `v`.
pub open spec fn spelled_read<T>(
    spells: spec_fn(Seq<char>) -> Option<T>,
    lines: Seq<String>,
    from: int,
    to: int,
    v: T,
) -> bool {
    &&& from < to
    &&& forall|j: int| from <= j < to - 1 ==> spells(#[trigger] line_at(lines, j)) == None::<T>
    &&& spells(line_at(lines, to - 1)) == Some(v)
}

/// Line `from` alone, trimmed, gave the text `t`.
pub open spec fn text_read(lines: Seq<String>, from: int, to: int, t: Seq<char>) -> bool {
    0 <= from < lines.len() && to == from + 1 && line_at(lines, from) == t
}

/// Lines `from .. to` gave the pair `v`: each line before the last is no pair
/// that `f` reads, and the last is one that it reads as `v`.
pub open spec fn pair_read<T, F: Fn(&str) -> Option<T>>(
    f: &F,
    lines: Seq<String>,
    from: int,
    to: int,
    v: (T, T),
) -> bool {
    &&& from < to
    &&& forall|j: int| from <= j < to - 1 ==> pair_refused(f, #[trigger] line_at(lines, j))
    &&& pair_reads(f, line_at(lines, to - 1), v)
}

/// Lines `from .. to` gave `wanted`: only the last equals it.
pub open spec fn exact_read(lines: Seq<String>, from: int, to: int, wanted: Seq<char>) -> bool {
    &&& from < to
    &&& forall|j: int| from <= j < to - 1 ==> #[trigger] line_at(lines, j) != wanted
    &&& line_at(lines, to - 1) == wanted
}

/// Lines `from .. to` gave the file name `name`: only the last carries the suffix.
pub open spec fn file_name_read(lines: Seq<String>, from: int, to: int, name: Seq<char>) -> bool {
    &&& from < to
    &&& forall|j: int|
        from <= j < to - 1 ==> !has_suffix(#[trigger] line_at(lines, j), CONFIG_SUFFIX@)
    &&& line_at(lines, to - 1) == name
    &&& has_suffix(name, CONFIG_SUFFIX@)
}

/// Reads the next line, trimmed.
pub fn prompt_str_input(input: &mut Script) -> (r: Option<String>)
    requires
        old(input).wf(),
    ensures
        reads_on(*old(input), *final(input)),
        match r {
            Some(t) => text_read(
                old(input).lines@,
                old(input).pos as int,
                final(input).pos as int,
                t@,
            ),
            None => old(input).pos == old(input).len() && final(input).pos == old(input).pos,
        },
{
    if input.pos >= input.lines.len() {
        return None;
    }
    let t = trim_text(input.lines[input.pos].as_str());
    input.pos = input.pos + 1;
    Some(t)
}

/// Reads lines until `parse` accepts one, and returns the value it gave.
/// Every line before it was refused; with no line left the result is `None`.
pub fn prompt<T, F: Fn(&str) -> Option<T>>(input: &mut Script, parse: &F) -> (r: Option<T>)
    requires
        old(input).wf(),
        forall|t: &str| parse.requires((t,)),
    ensures
        reads_on(*old(input), *final(input)),
        match r {
            Some(v) => value_read(
                parse,
                old(input).lines@,
                old(input).pos as int,
                final(input).pos as int,
                v,
            ),
            None => final(input).pos == old(input).len() && all_refused(
                parse,
                old(input).lines@,
                old(input).pos as int,
                old(input).len(),
            ),
        },
{
    while input.pos < input.lines.len()
        invariant
            reads_on(*old(input), *input),
            forall|t: &str| parse.requires((t,)),
            all_refused(parse, old(input).lines@, old(input).pos as int, input.pos as int),
        decreases input.lines@.len() - input.pos,
    {
        let line = trim_text(input.lines[input.pos].as_str());
        let text = line.as_str();
        let got = parse(text);
        assert(parses(parse, line_at(old(input).lines@, input.pos as int), got));
        input.pos = input.pos + 1;
        match got {
            Some(v) => {
                return Some(v);
            },
            None => {},
        }
    }
    None
}

/// Reads lines until one is a pair `a, b` whose two parts `parse_one` accepts.
pub fn prompt_tuple<T, F: Fn(&str) -> Option<T>>(input: &mut Script, parse_one: &F) -> (r:
    Option<(T, T)>)
    requires
        old(input).wf(),
        forall|t: &str| parse_one.requires((t,)),
    ensures
        reads_on(*old(input), *final(input)),
        match r {
            Some(v) => pair_read(
                parse_one,
                old(input).lines@,
                old(input).pos as int,
                final(input).pos as int,
                v,
            ),
            None => final(input).pos == old(input).len() && forall|j: int|
                old(input).pos <= j < old(input).len() ==> pair_refused(
                    parse_one,
                    #[trigger] line_at(old(input).lines@, j),
                ),
        },
{
    while input.pos < input.lines.len()
        invariant
            reads_on(*old(input), *input),
            forall|t: &str| parse_one.requires((t,)),
            forall|j: int|
                old(input).pos <= j < input.pos ==> pair_refused(
                    parse_one,
                    #[trigger] line_at(old(input).lines@, j),
                ),
        decreases input.lines@.len() - input.pos,
    {
        let line = trim_text(input.lines[input.pos].as_str());
        input.pos = input.pos + 1;
        match parse_tuple(line.as_str(), parse_one) {
            Ok(v) => {
                return Some(v);
            },
            Err(_) => {},
        }
    }
    None
}

/// Reads lines until one equals `wanted` exactly, and returns it.
pub fn prompt_exact(input: &mut Script, wanted: &str) -> (r: Option<String>)
    requires
        old(input).wf(),
    ensures
        reads_on(*old(input), *final(input)),
        match r {
            Some(t) => t@ == wanted@ && exact_read(
                old(input).lines@,
                old(input).pos as int,
                final(input).pos as int,
                wanted@,
            ),
            None => final(input).pos == old(input).len() && forall|j: int|
                old(input).pos <= j < old(input).len() ==> #[trigger] line_at(
                    old(input).lines@,
                    j,
                ) != wanted@,
        },
{
    while input.pos < input.lines.len()
        invariant
            reads_on(*old(input), *input),
            forall|j: int|
                old(input).pos <= j < input.pos ==> #[trigger] line_at(old(input).lines@, j)
                    != wanted@,
        decreases input.lines@.len() - input.pos,
    {
        let line = trim_text(input.lines[input.pos].as_str());
        input.pos = input.pos + 1;
        if same_text(line.as_str(), wanted) {
            return Some(line);
        }
    }
    None
}

/// Reads dataset names until the allowed one comes: any other entry is asked
/// again, and the allowed one ends the prompt at once.
pub fn prompt_dataset_name(input: &mut Script) -> (r: Option<String>)
    requires
        old(input).wf(),
    ensures
        reads_on(*old(input), *final(input)),
        match r {
            Some(t) => t@ == ALLOWED_DATASET@ && exact_read(
                old(input).lines@,
                old(input).pos as int,
                final(input).pos as int,
                ALLOWED_DATASET@,
            ),
            None => final(input).pos == old(input).len() && forall|j: int|
                old(input).pos <= j < old(input).len() ==> #[trigger] line_at(
                    old(input).lines@,
                    j,
                ) != ALLOWED_DATASET@,
        },
{
    prompt_exact(input, ALLOWED_DATASET)
}

/// Reads file names until one carries the configuration suffix: a name
/// without it is asked again, and one with it ends the prompt at once.
pub fn prompt_file_name(input: &mut Script) -> (r: Option<String>)
    requires
        old(input).wf(),
    ensures
        reads_on(*old(input), *final(input)),
        match r {
            Some(t) => file_name_read(
                old(input).lines@,
                old(input).pos as int,
                final(input).pos as int,
                t@,
            ),
            None => final(input).pos == old(input).len() && forall|j: int|
                old(input).pos <= j < old(input).len() ==> !has_suffix(
                    #[trigger] line_at(old(input).lines@, j),
                    CONFIG_SUFFIX@,
                ),
        },
{
    while input.pos < input.lines.len()
        invariant
            reads_on(*old(input), *input),
            forall|j: int|
                old(input).pos <= j < input.pos ==> !has_suffix(
                    #[trigger] line_at(old(input).lines@, j),
                    CONFIG_SUFFIX@,
                ),
        decreases input.lines@.len() - input.pos,
    {
        let line = trim_text(input.lines[input.pos].as_str());
        input.pos = input.pos + 1;
        if ends_with_text(line.as_str(), CONFIG_SUFFIX) {
            return Some(line);
        }
    }
    None
}

/// For a parser whose every answer is what `spells` gives for its text: the
/// value that a prompt returns is exactly what the accepted line spells, and
/// every line that it passed over, or that was left when it ran out, spells
/// nothing. So a prompt never ends without a value while a valid line is
/// still to come.
pub proof fn prompt_reads_exactly<T, F: Fn(&str) -> Option<T>>(
    parse: &F,
    spells: spec_fn(Seq<char>) -> Option<T>,
    lines: Seq<String>,
    from: int,
    to: int,
)
    requires
        forall|t: &str, r: Option<T>| #[trigger] parse.ensures((t,), r) ==> r == spells(t@),
    ensures
        all_refused(parse, lines, from, to) ==> forall|j: int|
            from <= j < to ==> spells(#[trigger] line_at(lines, j)) == None::<T>,
        forall|v: T|
            #[trigger] value_read(parse, lines, from, to, v) ==> spelled_read(
                spells,
                lines,
                from,
                to,
                v,
            ),
{
    assert forall|text: Seq<char>, r: Option<T>| parses(parse, text, r) implies spells(text)
        == r by {
        let t = choose|t: &str| t@ == text && #[trigger] parse.ensures((t,), r);
    }
    assert forall|a: int, b: int|
        all_refused(parse, lines, a, b) implies forall|j: int|
        a <= j < b ==> spells(#[trigger] line_at(lines, j)) == None::<T> by {
        assert forall|j: int| a <= j < b implies spells(#[trigger] line_at(lines, j)) == None::<
            T,
        > by {
            assert(parses(parse, line_at(lines, j), None::<T>));
        }
    }
}

} // verus!
