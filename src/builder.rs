//! Assembles a whole configuration from a script, in a fixed order of prompts.
use vstd::prelude::*;
use crate::area::{area_cut, area_entered, folder_or_default, prompt_area};
use crate::prompt::{
    all_refused, exact_read, file_name_read, line_at, pair_read, prompt, prompt_dataset_name, prompt_file_name,
    prompt_reads_exactly, prompt_str_input, prompt_tuple, reads_on, spelled_read, text_read,
    value_read, Script,
};
use crate::scalar::{bool_text, i32_text, parse_bool, parse_i32, parses};
use crate::schema::{
    default_detection_folder, default_mapping_folder, default_untagged_folder, ALLOWED_DATASET,
    AircraftProperties, CONFIG_SUFFIX, CommConfig, Coordinates, ManagerConfig, Point,
    SauronConfig,
};
use crate::text::has_suffix;
use crate::tuple::{first_part, is_pair_text, pair_reads, pair_refused, second_part};

verus! {

pub open spec fn bool_spelling() -> spec_fn(Seq<char>) -> Option<bool> {
    |s: Seq<char>| bool_text(s)
}

pub open spec fn i32_spelling() -> spec_fn(Seq<char>) -> Option<i32> {
    |s: Seq<char>| i32_text(s)
}

/// A pair `a, b` whose two parts both spell a value.
pub open spec fn pair_spelling<T>(spells: spec_fn(Seq<char>) -> Option<T>) -> spec_fn(
    Seq<char>,
) -> Option<(T, T)> {
    |s: Seq<char>|
        match (spells(first_part(s)), spells(second_part(s))) {
            (Some(a), Some(b)) => if is_pair_text(s) {
                Some((a, b))
            } else {
                None
            },
            _ => None,
        }
}

/// Line `from` alone gave the folder `t`: the line itself, or `default` when
/// it is empty.
pub open spec fn folder_read(
    lines: Seq<String>,
    from: int,
    to: int,
    t: Seq<char>,
    default: Seq<char>,
) -> bool {
    &&& 0 <= from < lines.len()
    &&& to == from + 1
    &&& t == if line_at(lines, from).len() == 0 {
        default
    } else {
        line_at(lines, from)
    }
}

/// The lines between the positions `ps` gave, in turn, each field of `c`
/// and the file name `name`.
#[verifier::opaque]
pub open spec fn session_read<R, FR: Fn(&str) -> Option<R>, FI: Fn(&str) -> Option<String>>(
    fr: &FR,
    fi: &FI,
    lines: Seq<String>,
    ps: Seq<int>,
    name: Seq<char>,
    c: ManagerConfig<R>,
) -> bool {
    let s = c.sauron_config;
    let k = c.commconfig;
    &&& ps.len() == 24
    &&& file_name_read(lines, ps[0], ps[1], name)
    &&& spelled_read(bool_spelling(), lines, ps[1], ps[2], c.test)
    &&& value_read(fr, lines, ps[2], ps[3], c.aircraft_properties.turn_radius)
    &&& value_read(fr, lines, ps[3], ps[4], c.aircraft_properties.velocity)
    &&& area_entered(fr, lines, ps[4], ps[5], c.coordinates.waypoints@)
    &&& area_entered(fr, lines, ps[5], ps[6], c.coordinates.mapping_area@)
    &&& area_entered(fr, lines, ps[6], ps[7], c.coordinates.target_area@)
    &&& value_read(fr, lines, ps[7], ps[8], c.coordinates.flying_threshold)
    &&& value_read(fr, lines, ps[8], ps[9], c.coordinates.mapping_threshold)
    &&& spelled_read(i32_spelling(), lines, ps[9], ps[10], k.dad_gnc_port)
    &&& spelled_read(i32_spelling(), lines, ps[10], ps[11], k.gnc_dad_port)
    &&& spelled_read(i32_spelling(), lines, ps[11], ps[12], k.dad_sauron_port)
    &&& spelled_read(i32_spelling(), lines, ps[12], ps[13], k.sauron_dad_port)
    &&& value_read(fi, lines, ps[13], ps[14], k.groundstation_ip)
    &&& value_read(fi, lines, ps[14], ps[15], k.flightcomputer_ip)
    &&& text_read(lines, ps[15], ps[16], s.model_path@)
    &&& spelled_read(i32_spelling(), lines, ps[16], ps[17], s.input_size)
    &&& folder_read(lines, ps[17], ps[18], s.untagged_image_folder@, default_untagged_folder())
    &&& folder_read(lines, ps[18], ps[19], s.detection_image_folder@, default_detection_folder())
    &&& folder_read(lines, ps[19], ps[20], s.mapping_image_folder@, default_mapping_folder())
    &&& pair_read(fr, lines, ps[20], ps[21], s.fov)
    &&& spelled_read(pair_spelling(i32_spelling()), lines, ps[21], ps[22], s.resolution)
    &&& exact_read(lines, ps[22], ps[23], ALLOWED_DATASET@)
    &&& s.dataset_name@ == ALLOWED_DATASET@
}

/// Lines `from .. to` gave the file name `name` and the configuration `c`.
#[verifier::opaque]
pub open spec fn session_entered<
    R,
    FR: Fn(&str) -> Option<R>,
    FI: Fn(&str) -> Option<String>,
>(
    fr: &FR,
    fi: &FI,
    lines: Seq<String>,
    from: int,
    to: int,
    name: Seq<char>,
    c: ManagerConfig<R>,
) -> bool {
    exists|ps: Seq<int>|
        #[trigger] session_read(fr, fi, lines, ps, name, c) && ps[0] == from && ps[23] == to
}

/// Where a session ran out of lines: the prompt of field `field`, counted
/// in the order that `build_config` asks them, and within an area prompt the
/// step that `area_cut` names.
#[derive(Debug, Clone, Copy, PartialEq, Eq)]
pub struct Pending {
    pub field: usize,
    pub step: usize,
}

/// Lines `a .. b` gave some value for field `i`.
#[verifier::opaque]
pub open spec fn field_done<R, FR: Fn(&str) -> Option<R>, FI: Fn(&str) -> Option<String>>(
    fr: &FR,
    fi: &FI,
    lines: Seq<String>,
    i: int,
    a: int,
    b: int,
) -> bool {
    if i == 0 {
        exists|n: Seq<char>| #[trigger] file_name_read(lines, a, b, n)
    } else if i == 1 {
        exists|v: bool| #[trigger] spelled_read(bool_spelling(), lines, a, b, v)
    } else if i == 2 {
        exists|v: R| #[trigger] value_read(fr, lines, a, b, v)
    } else if i == 3 {
        exists|v: R| #[trigger] value_read(fr, lines, a, b, v)
    } else if i == 4 {
        exists|v: Seq<Point<R>>| #[trigger] area_entered(fr, lines, a, b, v)
    } else if i == 5 {
        exists|v: Seq<Point<R>>| #[trigger] area_entered(fr, lines, a, b, v)
    } else if i == 6 {
        exists|v: Seq<Point<R>>| #[trigger] area_entered(fr, lines, a, b, v)
    } else if i == 7 {
        exists|v: R| #[trigger] value_read(fr, lines, a, b, v)
    } else if i == 8 {
        exists|v: R| #[trigger] value_read(fr, lines, a, b, v)
    } else if i == 9 {
        exists|v: i32| #[trigger] spelled_read(i32_spelling(), lines, a, b, v)
    } else if i == 10 {
        exists|v: i32| #[trigger] spelled_read(i32_spelling(), lines, a, b, v)
    } else if i == 11 {
        exists|v: i32| #[trigger] spelled_read(i32_spelling(), lines, a, b, v)
    } else if i == 12 {
        exists|v: i32| #[trigger] spelled_read(i32_spelling(), lines, a, b, v)
    } else if i == 13 {
        exists|v: String| #[trigger] value_read(fi, lines, a, b, v)
    } else if i == 14 {
        exists|v: String| #[trigger] value_read(fi, lines, a, b, v)
    } else if i == 15 {
        0 <= a < lines.len() && b == a + 1
    } else if i == 16 {
        exists|v: i32| #[trigger] spelled_read(i32_spelling(), lines, a, b, v)
    } else if i == 17 {
        0 <= a < lines.len() && b == a + 1
    } else if i == 18 {
        0 <= a < lines.len() && b == a + 1
    } else if i == 19 {
        0 <= a < lines.len() && b == a + 1
    } else if i == 20 {
        exists|v: (R, R)| #[trigger] pair_read(fr, lines, a, b, v)
    } else if i == 21 {
        exists|v: (i32, i32)| #[trigger] spelled_read(pair_spelling(i32_spelling()), lines, a, b, v)
    } else {
        exact_read(lines, a, b, ALLOWED_DATASET@)
    }
}

/// The prompt of field `i`, started at line `a`, ran out of lines: every
/// remaining line was refused, or, for an area, as `area_cut` says.
#[verifier::opaque]
pub open spec fn field_cut<R, FR: Fn(&str) -> Option<R>, FI: Fn(&str) -> Option<String>>(
    fr: &FR,
    fi: &FI,
    lines: Seq<String>,
    i: int,
    a: int,
    step: int,
) -> bool {
    if i == 0 {
        step == 0 && forall|j: int| a <= j < lines.len() ==> !has_suffix(#[trigger] line_at(lines, j), CONFIG_SUFFIX@)
    } else if i == 1 {
        step == 0 && forall|j: int| a <= j < lines.len() ==> bool_spelling()(#[trigger] line_at(lines, j)) == None::<bool>
    } else if i == 2 {
        step == 0 && all_refused(fr, lines, a, lines.len() as int)
    } else if i == 3 {
        step == 0 && all_refused(fr, lines, a, lines.len() as int)
    } else if i == 4 {
        area_cut(fr, lines, a, step)
    } else if i == 5 {
        area_cut(fr, lines, a, step)
    } else if i == 6 {
        area_cut(fr, lines, a, step)
    } else if i == 7 {
        step == 0 && all_refused(fr, lines, a, lines.len() as int)
    } else if i == 8 {
        step == 0 && all_refused(fr, lines, a, lines.len() as int)
    } else if i == 9 {
        step == 0 && forall|j: int| a <= j < lines.len() ==> i32_spelling()(#[trigger] line_at(lines, j)) == None::<i32>
    } else if i == 10 {
        step == 0 && forall|j: int| a <= j < lines.len() ==> i32_spelling()(#[trigger] line_at(lines, j)) == None::<i32>
    } else if i == 11 {
        step == 0 && forall|j: int| a <= j < lines.len() ==> i32_spelling()(#[trigger] line_at(lines, j)) == None::<i32>
    } else if i == 12 {
        step == 0 && forall|j: int| a <= j < lines.len() ==> i32_spelling()(#[trigger] line_at(lines, j)) == None::<i32>
    } else if i == 13 {
        step == 0 && all_refused(fi, lines, a, lines.len() as int)
    } else if i == 14 {
        step == 0 && all_refused(fi, lines, a, lines.len() as int)
    } else if i == 15 {
        step == 0 && a == lines.len()
    } else if i == 16 {
        step == 0 && forall|j: int| a <= j < lines.len() ==> i32_spelling()(#[trigger] line_at(lines, j)) == None::<i32>
    } else if i == 17 {
        step == 0 && a == lines.len()
    } else if i == 18 {
        step == 0 && a == lines.len()
    } else if i == 19 {
        step == 0 && a == lines.len()
    } else if i == 20 {
        step == 0 && forall|j: int| a <= j < lines.len() ==> pair_refused(fr, #[trigger] line_at(lines, j))
    } else if i == 21 {
        step == 0 && forall|j: int| a <= j < lines.len() ==> pair_spelling(i32_spelling())(#[trigger] line_at(lines, j)) == None::<(i32, i32)>
    } else {
        step == 0 && forall|j: int| a <= j < lines.len() ==> #[trigger] line_at(lines, j) != ALLOWED_DATASET@
    }
}

/// The lines between the positions `ps` gave the first `k` fields.
#[verifier::opaque]
pub open spec fn session_prefix<R, FR: Fn(&str) -> Option<R>, FI: Fn(&str) -> Option<String>>(
    fr: &FR,
    fi: &FI,
    lines: Seq<String>,
    ps: Seq<int>,
    k: int,
) -> bool {
    &&& ps.len() == k + 1
    &&& k > 0 ==> field_done(fr, fi, lines, 0, ps[0], ps[1])
    &&& k > 1 ==> field_done(fr, fi, lines, 1, ps[1], ps[2])
    &&& k > 2 ==> field_done(fr, fi, lines, 2, ps[2], ps[3])
    &&& k > 3 ==> field_done(fr, fi, lines, 3, ps[3], ps[4])
    &&& k > 4 ==> field_done(fr, fi, lines, 4, ps[4], ps[5])
    &&& k > 5 ==> field_done(fr, fi, lines, 5, ps[5], ps[6])
    &&& k > 6 ==> field_done(fr, fi, lines, 6, ps[6], ps[7])
    &&& k > 7 ==> field_done(fr, fi, lines, 7, ps[7], ps[8])
    &&& k > 8 ==> field_done(fr, fi, lines, 8, ps[8], ps[9])
    &&& k > 9 ==> field_done(fr, fi, lines, 9, ps[9], ps[10])
    &&& k > 10 ==> field_done(fr, fi, lines, 10, ps[10], ps[11])
    &&& k > 11 ==> field_done(fr, fi, lines, 11, ps[11], ps[12])
    &&& k > 12 ==> field_done(fr, fi, lines, 12, ps[12], ps[13])
    &&& k > 13 ==> field_done(fr, fi, lines, 13, ps[13], ps[14])
    &&& k > 14 ==> field_done(fr, fi, lines, 14, ps[14], ps[15])
    &&& k > 15 ==> field_done(fr, fi, lines, 15, ps[15], ps[16])
    &&& k > 16 ==> field_done(fr, fi, lines, 16, ps[16], ps[17])
    &&& k > 17 ==> field_done(fr, fi, lines, 17, ps[17], ps[18])
    &&& k > 18 ==> field_done(fr, fi, lines, 18, ps[18], ps[19])
    &&& k > 19 ==> field_done(fr, fi, lines, 19, ps[19], ps[20])
    &&& k > 20 ==> field_done(fr, fi, lines, 20, ps[20], ps[21])
    &&& k > 21 ==> field_done(fr, fi, lines, 21, ps[21], ps[22])
}

/// From line `from`, the first fields were read and the prompt of field
/// `p.field` then ran out of lines.
#[verifier::opaque]
pub open spec fn session_cut<R, FR: Fn(&str) -> Option<R>, FI: Fn(&str) -> Option<String>>(
    fr: &FR,
    fi: &FI,
    lines: Seq<String>,
    from: int,
    p: Pending,
) -> bool {
    &&& p.field < 23
    &&& exists|ps: Seq<int>|
        #[trigger] session_prefix(fr, fi, lines, ps, p.field as int) && ps[0] == from
            && field_cut(fr, fi, lines, p.field as int, ps.last(), p.step as int)
}

proof fn prefix_extend<R, FR: Fn(&str) -> Option<R>, FI: Fn(&str) -> Option<String>>(
    fr: &FR,
    fi: &FI,
    lines: Seq<String>,
    ps: Seq<int>,
    k: int,
    b: int,
)
    requires
        0 <= k < 23,
        session_prefix(fr, fi, lines, ps, k),
        field_done(fr, fi, lines, k, ps.last(), b),
    ensures
        session_prefix(fr, fi, lines, ps.push(b), k + 1),
{
    reveal(session_prefix);
    let q = ps.push(b);
    assert(forall|i: int| 0 <= i <= k ==> q[i] == ps[i]);
    assert(q[k + 1] == b);
}

proof fn pairs_refused_spelled<T, F: Fn(&str) -> Option<T>>(
    f: &F,
    spells: spec_fn(Seq<char>) -> Option<T>,
    lines: Seq<String>,
    a: int,
    b: int,
)
    requires
        forall|t: &str, r: Option<T>| #[trigger] f.ensures((t,), r) ==> r == spells(t@),
    ensures
        (forall|j: int| a <= j < b ==> pair_refused(f, #[trigger] line_at(lines, j))) ==> forall|
            j: int,
        | a <= j < b ==> pair_spelling(spells)(#[trigger] line_at(lines, j)) == None::<(T, T)>,
        forall|v: (T, T)|
            #[trigger] pair_read(f, lines, a, b, v) ==> spelled_read(
                pair_spelling(spells),
                lines,
                a,
                b,
                v,
            ),
{
    assert forall|text: Seq<char>, r: Option<T>| parses(f, text, r) implies spells(text) == r by {
        let t = choose|t: &str| t@ == text && #[trigger] f.ensures((t,), r);
    }
    if forall|j: int| a <= j < b ==> pair_refused(f, #[trigger] line_at(lines, j)) {
        assert forall|j: int| a <= j < b implies pair_spelling(spells)(
            #[trigger] line_at(lines, j),
        ) == None::<(T, T)> by {
            assert(pair_refused(f, line_at(lines, j)));
        }
    }
    assert forall|v: (T, T)| #[trigger] pair_read(f, lines, a, b, v) implies spelled_read(
        pair_spelling(spells),
        lines,
        a,
        b,
        v,
    ) by {
        assert(forall|j: int| a <= j < b - 1 ==> pair_refused(f, #[trigger] line_at(lines, j)));
        assert(pair_reads(f, line_at(lines, b - 1), v));
    }
}

/// Reads, in order: the file name, the test flag, turn radius and velocity,
/// the waypoint, mapping and target areas, the flying and mapping
/// thresholds, four ports, two addresses, the model path and input size,
/// three image folders (an empty entry takes the default folder), the field
/// of view and resolution pairs, and the dataset name. Returns the file name
/// and the configuration, or, when the script ends first, the prompt that
/// was waiting for a line.
/// `parse_real` reads a real number; `parse_ip` reads an address and gives
/// the text to store.
#[verifier::rlimit(100)]
pub fn build_config<R, FR: Fn(&str) -> Option<R>, FI: Fn(&str) -> Option<String>>(
    input: &mut Script,
    parse_real: &FR,
    parse_ip: &FI,
) -> (r: Result<(String, ManagerConfig<R>), Pending>)
    requires
        old(input).wf(),
        forall|t: &str| parse_real.requires((t,)),
        forall|t: &str| parse_ip.requires((t,)),
    ensures
        reads_on(*old(input), *final(input)),
        match r {
            Ok((name, c)) => session_entered(
                parse_real,
                parse_ip,
                old(input).lines@,
                old(input).pos as int,
                final(input).pos as int,
                name@,
                c,
            ),
            Err(p) => final(input).pos == old(input).len() && session_cut(
                parse_real,
                parse_ip,
                old(input).lines@,
                old(input).pos as int,
                p,
            ),
        },
{
    let read_bool = |t: &str| -> (r: Option<bool>)
        ensures
            r == bool_text(t@),
        { parse_bool(t) };
    let read_i32 = |t: &str| -> (r: Option<i32>)
        ensures
            r == i32_text(t@),
        { parse_i32(t) };
    let ghost lines = input.lines@;
    let ghost start = input.pos as int;
    let ghost mut ps: Seq<int> = seq![input.pos as int];
    assert(session_prefix(parse_real, parse_ip, lines, ps, 0)) by {
        reveal(session_prefix);
    }
    let file_name = match prompt_file_name(input) {
        Some(v) => v,
        None => {
            let p = Pending { field: 0, step: 0 };
            proof {
                assert(field_cut(parse_real, parse_ip, lines, p.field as int, ps.last(), p.step as int)) by {
                    reveal(field_cut);
                }
            }
            assert(session_cut(parse_real, parse_ip, lines, start, p)) by {
                reveal(session_cut);
            }
            return Err(p);
        },
    };
    proof {
        assert(field_done(parse_real, parse_ip, lines, 0, ps.last(), input.pos as int)) by {
            reveal(field_done);
        }
        prefix_extend(parse_real, parse_ip, lines, ps, 0, input.pos as int);
        ps = ps.push(input.pos as int);
    }
    let test = match prompt(input, &read_bool) {
        Some(v) => v,
        None => {
            let p = Pending { field: 1, step: 0 };
            proof {
                    prompt_reads_exactly(&read_bool, bool_spelling(), lines, ps[1], lines.len() as int);
                assert(field_cut(parse_real, parse_ip, lines, p.field as int, ps.last(), p.step as int)) by {
                    reveal(field_cut);
                }
            }
            assert(session_cut(parse_real, parse_ip, lines, start, p)) by {
                reveal(session_cut);
            }
            return Err(p);
        },
    };
    proof {
        prompt_reads_exactly(&read_bool, bool_spelling(), lines, ps[1], input.pos as int);
        assert(field_done(parse_real, parse_ip, lines, 1, ps.last(), input.pos as int)) by {
            reveal(field_done);
        }
        prefix_extend(parse_real, parse_ip, lines, ps, 1, input.pos as int);
        ps = ps.push(input.pos as int);
    }
    let turn_radius = match prompt(input, parse_real) {
        Some(v) => v,
        None => {
            let p = Pending { field: 2, step: 0 };
            proof {
                assert(field_cut(parse_real, parse_ip, lines, p.field as int, ps.last(), p.step as int)) by {
                    reveal(field_cut);
                }
            }
            assert(session_cut(parse_real, parse_ip, lines, start, p)) by {
                reveal(session_cut);
            }
            return Err(p);
        },
    };
    proof {
        assert(field_done(parse_real, parse_ip, lines, 2, ps.last(), input.pos as int)) by {
            reveal(field_done);
        }
        prefix_extend(parse_real, parse_ip, lines, ps, 2, input.pos as int);
        ps = ps.push(input.pos as int);
    }
    let velocity = match prompt(input, parse_real) {
        Some(v) => v,
        None => {
            let p = Pending { field: 3, step: 0 };
            proof {
                assert(field_cut(parse_real, parse_ip, lines, p.field as int, ps.last(), p.step as int)) by {
                    reveal(field_cut);
                }
            }
            assert(session_cut(parse_real, parse_ip, lines, start, p)) by {
                reveal(session_cut);
            }
            return Err(p);
        },
    };
    proof {
        assert(field_done(parse_real, parse_ip, lines, 3, ps.last(), input.pos as int)) by {
            reveal(field_done);
        }
        prefix_extend(parse_real, parse_ip, lines, ps, 3, input.pos as int);
        ps = ps.push(input.pos as int);
    }
    let waypoints = match prompt_area(input, parse_real) {
        Ok(v) => v,
        Err(w) => {
            let p = Pending { field: 4, step: w };
            proof {
                assert(field_cut(parse_real, parse_ip, lines, p.field as int, ps.last(), p.step as int)) by {
                    reveal(field_cut);
                }
            }
            assert(session_cut(parse_real, parse_ip, lines, start, p)) by {
                reveal(session_cut);
            }
            return Err(p);
        },
    };
    proof {
        assert(field_done(parse_real, parse_ip, lines, 4, ps.last(), input.pos as int)) by {
            reveal(field_done);
        }
        prefix_extend(parse_real, parse_ip, lines, ps, 4, input.pos as int);
        ps = ps.push(input.pos as int);
    }
    let mapping_area = match prompt_area(input, parse_real) {
        Ok(v) => v,
        Err(w) => {
            let p = Pending { field: 5, step: w };
            proof {
                assert(field_cut(parse_real, parse_ip, lines, p.field as int, ps.last(), p.step as int)) by {
                    reveal(field_cut);
                }
            }
            assert(session_cut(parse_real, parse_ip, lines, start, p)) by {
                reveal(session_cut);
            }
            return Err(p);
        },
    };
    proof {
        assert(field_done(parse_real, parse_ip, lines, 5, ps.last(), input.pos as int)) by {
            reveal(field_done);
        }
        prefix_extend(parse_real, parse_ip, lines, ps, 5, input.pos as int);
        ps = ps.push(input.pos as int);
    }
    let target_area = match prompt_area(input, parse_real) {
        Ok(v) => v,
        Err(w) => {
            let p = Pending { field: 6, step: w };
            proof {
                assert(field_cut(parse_real, parse_ip, lines, p.field as int, ps.last(), p.step as int)) by {
                    reveal(field_cut);
                }
            }
            assert(session_cut(parse_real, parse_ip, lines, start, p)) by {
                reveal(session_cut);
            }
            return Err(p);
        },
    };
    proof {
        assert(field_done(parse_real, parse_ip, lines, 6, ps.last(), input.pos as int)) by {
            reveal(field_done);
        }
        prefix_extend(parse_real, parse_ip, lines, ps, 6, input.pos as int);
        ps = ps.push(input.pos as int);
    }
    let flying_threshold = match prompt(input, parse_real) {
        Some(v) => v,
        None => {
            let p = Pending { field: 7, step: 0 };
            proof {
                assert(field_cut(parse_real, parse_ip, lines, p.field as int, ps.last(), p.step as int)) by {
                    reveal(field_cut);
                }
            }
            assert(session_cut(parse_real, parse_ip, lines, start, p)) by {
                reveal(session_cut);
            }
            return Err(p);
        },
    };
    proof {
        assert(field_done(parse_real, parse_ip, lines, 7, ps.last(), input.pos as int)) by {
            reveal(field_done);
        }
        prefix_extend(parse_real, parse_ip, lines, ps, 7, input.pos as int);
        ps = ps.push(input.pos as int);
    }
    let mapping_threshold = match prompt(input, parse_real) {
        Some(v) => v,
        None => {
            let p = Pending { field: 8, step: 0 };
            proof {
                assert(field_cut(parse_real, parse_ip, lines, p.field as int, ps.last(), p.step as int)) by {
                    reveal(field_cut);
                }
            }
            assert(session_cut(parse_real, parse_ip, lines, start, p)) by {
                reveal(session_cut);
            }
            return Err(p);
        },
    };
    proof {
        assert(field_done(parse_real, parse_ip, lines, 8, ps.last(), input.pos as int)) by {
            reveal(field_done);
        }
        prefix_extend(parse_real, parse_ip, lines, ps, 8, input.pos as int);
        ps = ps.push(input.pos as int);
    }
    let dad_gnc_port = match prompt(input, &read_i32) {
        Some(v) => v,
        None => {
            let p = Pending { field: 9, step: 0 };
            proof {
                    prompt_reads_exactly(&read_i32, i32_spelling(), lines, ps[9], lines.len() as int);
                assert(field_cut(parse_real, parse_ip, lines, p.field as int, ps.last(), p.step as int)) by {
                    reveal(field_cut);
                }
            }
            assert(session_cut(parse_real, parse_ip, lines, start, p)) by {
                reveal(session_cut);
            }
            return Err(p);
        },
    };
    proof {
        prompt_reads_exactly(&read_i32, i32_spelling(), lines, ps[9], input.pos as int);
        assert(field_done(parse_real, parse_ip, lines, 9, ps.last(), input.pos as int)) by {
            reveal(field_done);
        }
        prefix_extend(parse_real, parse_ip, lines, ps, 9, input.pos as int);
        ps = ps.push(input.pos as int);
    }
    let gnc_dad_port = match prompt(input, &read_i32) {
        Some(v) => v,
        None => {
            let p = Pending { field: 10, step: 0 };
            proof {
                    prompt_reads_exactly(&read_i32, i32_spelling(), lines, ps[10], lines.len() as int);
                assert(field_cut(parse_real, parse_ip, lines, p.field as int, ps.last(), p.step as int)) by {
                    reveal(field_cut);
                }
            }
            assert(session_cut(parse_real, parse_ip, lines, start, p)) by {
                reveal(session_cut);
            }
            return Err(p);
        },
    };
    proof {
        prompt_reads_exactly(&read_i32, i32_spelling(), lines, ps[10], input.pos as int);
        assert(field_done(parse_real, parse_ip, lines, 10, ps.last(), input.pos as int)) by {
            reveal(field_done);
        }
        prefix_extend(parse_real, parse_ip, lines, ps, 10, input.pos as int);
        ps = ps.push(input.pos as int);
    }
    let dad_sauron_port = match prompt(input, &read_i32) {
        Some(v) => v,
        None => {
            let p = Pending { field: 11, step: 0 };
            proof {
                    prompt_reads_exactly(&read_i32, i32_spelling(), lines, ps[11], lines.len() as int);
                assert(field_cut(parse_real, parse_ip, lines, p.field as int, ps.last(), p.step as int)) by {
                    reveal(field_cut);
                }
            }
            assert(session_cut(parse_real, parse_ip, lines, start, p)) by {
                reveal(session_cut);
            }
            return Err(p);
        },
    };
    proof {
        prompt_reads_exactly(&read_i32, i32_spelling(), lines, ps[11], input.pos as int);
        assert(field_done(parse_real, parse_ip, lines, 11, ps.last(), input.pos as int)) by {
            reveal(field_done);
        }
        prefix_extend(parse_real, parse_ip, lines, ps, 11, input.pos as int);
        ps = ps.push(input.pos as int);
    }
    let sauron_dad_port = match prompt(input, &read_i32) {
        Some(v) => v,
        None => {
            let p = Pending { field: 12, step: 0 };
            proof {
                    prompt_reads_exactly(&read_i32, i32_spelling(), lines, ps[12], lines.len() as int);
                assert(field_cut(parse_real, parse_ip, lines, p.field as int, ps.last(), p.step as int)) by {
                    reveal(field_cut);
                }
            }
            assert(session_cut(parse_real, parse_ip, lines, start, p)) by {
                reveal(session_cut);
            }
            return Err(p);
        },
    };
    proof {
        prompt_reads_exactly(&read_i32, i32_spelling(), lines, ps[12], input.pos as int);
        assert(field_done(parse_real, parse_ip, lines, 12, ps.last(), input.pos as int)) by {
            reveal(field_done);
        }
        prefix_extend(parse_real, parse_ip, lines, ps, 12, input.pos as int);
        ps = ps.push(input.pos as int);
    }
    let groundstation_ip = match prompt(input, parse_ip) {
        Some(v) => v,
        None => {
            let p = Pending { field: 13, step: 0 };
            proof {
                assert(field_cut(parse_real, parse_ip, lines, p.field as int, ps.last(), p.step as int)) by {
                    reveal(field_cut);
                }
            }
            assert(session_cut(parse_real, parse_ip, lines, start, p)) by {
                reveal(session_cut);
            }
            return Err(p);
        },
    };
    proof {
        assert(field_done(parse_real, parse_ip, lines, 13, ps.last(), input.pos as int)) by {
            reveal(field_done);
        }
        prefix_extend(parse_real, parse_ip, lines, ps, 13, input.pos as int);
        ps = ps.push(input.pos as int);
    }
    let flightcomputer_ip = match prompt(input, parse_ip) {
        Some(v) => v,
        None => {
            let p = Pending { field: 14, step: 0 };
            proof {
                assert(field_cut(parse_real, parse_ip, lines, p.field as int, ps.last(), p.step as int)) by {
                    reveal(field_cut);
                }
            }
            assert(session_cut(parse_real, parse_ip, lines, start, p)) by {
                reveal(session_cut);
            }
            return Err(p);
        },
    };
    proof {
        assert(field_done(parse_real, parse_ip, lines, 14, ps.last(), input.pos as int)) by {
            reveal(field_done);
        }
        prefix_extend(parse_real, parse_ip, lines, ps, 14, input.pos as int);
        ps = ps.push(input.pos as int);
    }
    let model_path = match prompt_str_input(input) {
        Some(v) => v,
        None => {
            let p = Pending { field: 15, step: 0 };
            proof {
                assert(field_cut(parse_real, parse_ip, lines, p.field as int, ps.last(), p.step as int)) by {
                    reveal(field_cut);
                }
            }
            assert(session_cut(parse_real, parse_ip, lines, start, p)) by {
                reveal(session_cut);
            }
            return Err(p);
        },
    };
    proof {
        assert(field_done(parse_real, parse_ip, lines, 15, ps.last(), input.pos as int)) by {
            reveal(field_done);
        }
        prefix_extend(parse_real, parse_ip, lines, ps, 15, input.pos as int);
        ps = ps.push(input.pos as int);
    }
    let input_size = match prompt(input, &read_i32) {
        Some(v) => v,
        None => {
            let p = Pending { field: 16, step: 0 };
            proof {
                    prompt_reads_exactly(&read_i32, i32_spelling(), lines, ps[16], lines.len() as int);
                assert(field_cut(parse_real, parse_ip, lines, p.field as int, ps.last(), p.step as int)) by {
                    reveal(field_cut);
                }
            }
            assert(session_cut(parse_real, parse_ip, lines, start, p)) by {
                reveal(session_cut);
            }
            return Err(p);
        },
    };
    proof {
        prompt_reads_exactly(&read_i32, i32_spelling(), lines, ps[16], input.pos as int);
        assert(field_done(parse_real, parse_ip, lines, 16, ps.last(), input.pos as int)) by {
            reveal(field_done);
        }
        prefix_extend(parse_real, parse_ip, lines, ps, 16, input.pos as int);
        ps = ps.push(input.pos as int);
    }
    let untagged = match prompt_str_input(input) {
        Some(v) => v,
        None => {
            let p = Pending { field: 17, step: 0 };
            proof {
                assert(field_cut(parse_real, parse_ip, lines, p.field as int, ps.last(), p.step as int)) by {
                    reveal(field_cut);
                }
            }
            assert(session_cut(parse_real, parse_ip, lines, start, p)) by {
                reveal(session_cut);
            }
            return Err(p);
        },
    };
    proof {
        assert(field_done(parse_real, parse_ip, lines, 17, ps.last(), input.pos as int)) by {
            reveal(field_done);
        }
        prefix_extend(parse_real, parse_ip, lines, ps, 17, input.pos as int);
        ps = ps.push(input.pos as int);
    }
    let untagged_image_folder = folder_or_default(untagged, "/feonix-images/untagged");
    let detection = match prompt_str_input(input) {
        Some(v) => v,
        None => {
            let p = Pending { field: 18, step: 0 };
            proof {
                assert(field_cut(parse_real, parse_ip, lines, p.field as int, ps.last(), p.step as int)) by {
                    reveal(field_cut);
                }
            }
            assert(session_cut(parse_real, parse_ip, lines, start, p)) by {
                reveal(session_cut);
            }
            return Err(p);
        },
    };
    proof {
        assert(field_done(parse_real, parse_ip, lines, 18, ps.last(), input.pos as int)) by {
            reveal(field_done);
        }
        prefix_extend(parse_real, parse_ip, lines, ps, 18, input.pos as int);
        ps = ps.push(input.pos as int);
    }
    let detection_image_folder = folder_or_default(detection, "/feonix-images/detection");
    let mapping = match prompt_str_input(input) {
        Some(v) => v,
        None => {
            let p = Pending { field: 19, step: 0 };
            proof {
                assert(field_cut(parse_real, parse_ip, lines, p.field as int, ps.last(), p.step as int)) by {
                    reveal(field_cut);
                }
            }
            assert(session_cut(parse_real, parse_ip, lines, start, p)) by {
                reveal(session_cut);
            }
            return Err(p);
        },
    };
    proof {
        assert(field_done(parse_real, parse_ip, lines, 19, ps.last(), input.pos as int)) by {
            reveal(field_done);
        }
        prefix_extend(parse_real, parse_ip, lines, ps, 19, input.pos as int);
        ps = ps.push(input.pos as int);
    }
    let mapping_image_folder = folder_or_default(mapping, "/feonix-images/mapping");
    let fov = match prompt_tuple(input, parse_real) {
        Some(v) => v,
        None => {
            let p = Pending { field: 20, step: 0 };
            proof {
                assert(field_cut(parse_real, parse_ip, lines, p.field as int, ps.last(), p.step as int)) by {
                    reveal(field_cut);
                }
            }
            assert(session_cut(parse_real, parse_ip, lines, start, p)) by {
                reveal(session_cut);
            }
            return Err(p);
        },
    };
    proof {
        assert(field_done(parse_real, parse_ip, lines, 20, ps.last(), input.pos as int)) by {
            reveal(field_done);
        }
        prefix_extend(parse_real, parse_ip, lines, ps, 20, input.pos as int);
        ps = ps.push(input.pos as int);
    }
    let resolution = match prompt_tuple(input, &read_i32) {
        Some(v) => v,
        None => {
            let p = Pending { field: 21, step: 0 };
            proof {
                    pairs_refused_spelled(&read_i32, i32_spelling(), lines, ps[21], lines.len() as int);
                assert(field_cut(parse_real, parse_ip, lines, p.field as int, ps.last(), p.step as int)) by {
                    reveal(field_cut);
                }
            }
            assert(session_cut(parse_real, parse_ip, lines, start, p)) by {
                reveal(session_cut);
            }
            return Err(p);
        },
    };
    proof {
        pairs_refused_spelled(&read_i32, i32_spelling(), lines, ps[21], input.pos as int);
        assert(field_done(parse_real, parse_ip, lines, 21, ps.last(), input.pos as int)) by {
            reveal(field_done);
        }
        prefix_extend(parse_real, parse_ip, lines, ps, 21, input.pos as int);
        ps = ps.push(input.pos as int);
    }
    let dataset_name = match prompt_dataset_name(input) {
        Some(v) => v,
        None => {
            let p = Pending { field: 22, step: 0 };
            proof {
                assert(field_cut(parse_real, parse_ip, lines, p.field as int, ps.last(), p.step as int)) by {
                    reveal(field_cut);
                }
            }
            assert(session_cut(parse_real, parse_ip, lines, start, p)) by {
                reveal(session_cut);
            }
            return Err(p);
        },
    };
    proof {
        assert(field_done(parse_real, parse_ip, lines, 22, ps.last(), input.pos as int)) by {
            reveal(field_done);
        }
        prefix_extend(parse_real, parse_ip, lines, ps, 22, input.pos as int);
        ps = ps.push(input.pos as int);
    }
    proof {
        reveal_strlit("/feonix-images/untagged");
        reveal_strlit("/feonix-images/detection");
        reveal_strlit("/feonix-images/mapping");
    }
    let config = ManagerConfig {
        test,
        sauron_config: SauronConfig {
            model_path,
            input_size,
            dataset_name,
            fov,
            resolution,
            untagged_image_folder,
            detection_image_folder,
            mapping_image_folder,
        },
        aircraft_properties: AircraftProperties { turn_radius, velocity },
        coordinates: Coordinates {
            waypoints,
            mapping_area,
            target_area,
            flying_threshold,
            mapping_threshold,
        },
        commconfig: CommConfig {
            dad_gnc_port,
            gnc_dad_port,
            dad_sauron_port,
            sauron_dad_port,
            groundstation_ip,
            flightcomputer_ip,
        },
    };
    assert(session_read(parse_real, parse_ip, lines, ps, file_name@, config)) by {
        reveal(session_read);
    }
    assert(session_entered(parse_real, parse_ip, lines, start, input.pos as int, file_name@, config)) by {
        reveal(session_entered);
    }
    Ok((file_name, config))
}

} // verus!
