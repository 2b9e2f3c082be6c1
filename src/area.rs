//! Points and areas read from a script.
use vstd::prelude::*;
use crate::prompt::{
    all_refused, line_at, prompt, prompt_str_input, reads_on, text_read, value_read, Script,
};
use crate::schema::{AFFIRMATIVE, Point};
use crate::text::same_text;

verus! {

/// Lines `from .. to` give the point `p`: the x prompt read `p.x` from the
/// lines `from .. jx` and the y prompt read `p.y` from the rest.
pub open spec fn point_read<R, F: Fn(&str) -> Option<R>>(
    f: &F,
    lines: Seq<String>,
    from: int,
    to: int,
    p: Point<R>,
) -> bool {
    exists|jx: int|
        #[trigger] value_read(f, lines, from, jx, p.x) && value_read(f, lines, jx, to, p.y)
}

/// A point prompt from line `from` ran out of lines: in the x prompt
/// (`which == 0`), where every remaining line was refused, or in the y
/// prompt (`which == 1`), after x was read.
pub open spec fn point_cut<R, F: Fn(&str) -> Option<R>>(
    f: &F,
    lines: Seq<String>,
    from: int,
    which: int,
) -> bool {
    ||| which == 0 && all_refused(f, lines, from, lines.len() as int)
    ||| which == 1 && exists|jx: int, x: R|
        #[trigger] value_read(f, lines, from, jx, x) && all_refused(
            f,
            lines,
            jx,
            lines.len() as int,
        )
}

/// The answers at `ks[i]` were the affirmative word and the lines up to the
/// next answer gave `pts[i]`, for every point of `pts`.
pub open spec fn area_prefix<R, F: Fn(&str) -> Option<R>>(
    f: &F,
    lines: Seq<String>,
    ks: Seq<int>,
    pts: Seq<Point<R>>,
) -> bool {
    &&& ks.len() == pts.len() + 1
    &&& forall|i: int|
        0 <= i < pts.len() ==> text_read(lines, #[trigger] ks[i], ks[i] + 1, AFFIRMATIVE@)
            && point_read(f, lines, ks[i] + 1, ks[i + 1], pts[i])
}

/// The area `area` was read from `lines`, starting at `ks[0]`: the prefix
/// above, closed by an answer at the last of `ks` that is anything else.
pub open spec fn area_read<R, F: Fn(&str) -> Option<R>>(
    f: &F,
    lines: Seq<String>,
    ks: Seq<int>,
    area: Seq<Point<R>>,
) -> bool {
    &&& area_prefix(f, lines, ks, area)
    &&& 0 <= ks.last() < lines.len()
    &&& line_at(lines, ks.last()) != AFFIRMATIVE@
}

/// Lines `from .. to` gave the area `area`: N affirmative answers, each
/// followed by one point, then one other answer, so exactly N points in the
/// order entered.
pub open spec fn area_entered<R, F: Fn(&str) -> Option<R>>(
    f: &F,
    lines: Seq<String>,
    from: int,
    to: int,
    area: Seq<Point<R>>,
) -> bool {
    exists|ks: Seq<int>|
        #[trigger] area_read(f, lines, ks, area) && ks[0] == from && to == ks.last() + 1
}

/// An area prompt from line `from` ran out of lines inside the area: after
/// some points, while waiting for an answer (`which == 0`), or after an
/// affirmative answer, in the point's x (`which == 1`) or y (`which == 2`)
/// prompt.
pub open spec fn area_cut<R, F: Fn(&str) -> Option<R>>(
    f: &F,
    lines: Seq<String>,
    from: int,
    which: int,
) -> bool {
    exists|ks: Seq<int>, pts: Seq<Point<R>>|
        #[trigger] area_prefix(f, lines, ks, pts) && ks[0] == from && {
            ||| which == 0 && ks.last() == lines.len()
            ||| 1 <= which <= 2 && text_read(lines, ks.last(), ks.last() + 1, AFFIRMATIVE@)
                && point_cut(f, lines, ks.last() + 1, which - 1)
        }
}

/// Reads an x and then a y coordinate. `Err(0)` or `Err(1)`: the x or the y
/// prompt ran out of lines.
pub fn prompt_point<R, F: Fn(&str) -> Option<R>>(input: &mut Script, parse_real: &F) -> (r:
    Result<Point<R>, usize>)
    requires
        old(input).wf(),
        forall|t: &str| parse_real.requires((t,)),
    ensures
        reads_on(*old(input), *final(input)),
        match r {
            Ok(p) => point_read(
                parse_real,
                old(input).lines@,
                old(input).pos as int,
                final(input).pos as int,
                p,
            ),
            Err(which) => final(input).pos == old(input).len() && point_cut(
                parse_real,
                old(input).lines@,
                old(input).pos as int,
                which as int,
            ),
        },
{
    let x = match prompt(input, parse_real) {
        Some(x) => x,
        None => {
            return Err(0);
        },
    };
    let ghost jx = input.pos as int;
    let y = match prompt(input, parse_real) {
        Some(y) => y,
        None => {
            assert(value_read(parse_real, old(input).lines@, old(input).pos as int, jx, x));
            return Err(1);
        },
    };
    let p = Point { x, y };
    assert(value_read(parse_real, old(input).lines@, old(input).pos as int, jx, p.x));
    Ok(p)
}

/// Reads an area: while the answer to "another point?" is the affirmative
/// word, reads one more point. Any other answer ends the area, so N
/// affirmative answers give exactly N points, in the order entered.
/// `Err(which)`: the lines ran out inside the area, as `area_cut` says.
pub fn prompt_area<R, F: Fn(&str) -> Option<R>>(input: &mut Script, parse_real: &F) -> (r:
    Result<Vec<Point<R>>, usize>)
    requires
        old(input).wf(),
        forall|t: &str| parse_real.requires((t,)),
    ensures
        reads_on(*old(input), *final(input)),
        match r {
            Ok(area) => area_entered(
                parse_real,
                old(input).lines@,
                old(input).pos as int,
                final(input).pos as int,
                area@,
            ),
            Err(which) => final(input).pos == old(input).len() && area_cut(
                parse_real,
                old(input).lines@,
                old(input).pos as int,
                which as int,
            ),
        },
{
    let mut area: Vec<Point<R>> = Vec::new();
    let ghost mut ks: Seq<int> = seq![input.pos as int];
    loop
        invariant
            reads_on(*old(input), *input),
            forall|t: &str| parse_real.requires((t,)),
            ks[0] == old(input).pos,
            ks.last() == input.pos,
            area_prefix(parse_real, old(input).lines@, ks, area@),
        decreases old(input).lines@.len() - input.pos,
    {
        let answer = match prompt_str_input(input) {
            Some(a) => a,
            None => {
                assert(area_cut(parse_real, old(input).lines@, old(input).pos as int, 0));
                return Err(0);
            },
        };
        if !same_text(answer.as_str(), AFFIRMATIVE) {
            assert(area_read(parse_real, old(input).lines@, ks, area@));
            return Ok(area);
        }
        let p = match prompt_point(input, parse_real) {
            Ok(p) => p,
            Err(which) => {
                assert(area_cut(
                    parse_real,
                    old(input).lines@,
                    old(input).pos as int,
                    which + 1,
                ));
                return Err(which + 1);
            },
        };
        proof {
            ks = ks.push(input.pos as int);
        }
        area.push(p);
        assert(forall|i: int|
            0 <= i < area@.len() - 1 ==> #[trigger] ks[i] == ks.drop_last()[i]);
    }
}

/// The folder that an entry names: the entry itself, or `default` when it is
/// empty.
pub fn folder_or_default(entered: String, default: &str) -> (r: String)
    ensures
        r@ == (if entered@.len() == 0 {
            default@
        } else {
            entered@
        }),
{
    if entered.unicode_len() == 0 {
        String::from_str(default)
    } else {
        entered
    }
}

} // verus!
