//! The source-map reverse lookup: reads a source-map document, decodes
//! its variable-length-quantity mapping payload into tokens, and finds,
//! for generated positions, the best original position on the same line.

use vstd::prelude::*;
use crate::jsonchars::{
    skip_ws_spec, skip_ws, str_body_spec, str_body, value_skip_spec, value_skip, arr_rest_spec,
};

verus! {

/// One decoded mapping segment: a generated line and column and, when
/// the segment carries them, an original source index, line and column.
#[derive(Clone, Copy, PartialEq, Eq, Structural, Debug)]
pub struct Token {
    pub dst_line: u32,
    pub dst_col: u32,
    pub has_src: bool,
    pub src_id: u32,
    pub src_line: u32,
    pub src_col: u32,
}

/// The fields of a source-map document that the lookup needs: the
/// mapping payload and the source names (absent names read as empty).
pub struct MapDoc {
    pub mappings: Vec<char>,
    pub sources: Vec<Vec<char>>,
}

/// The base64 value of a mapping character, or a negative marker.
pub open spec fn b64_spec(c: char) -> int {
    let u = c as u32;
    if 65 <= u <= 90 {
        u - 65
    } else if 97 <= u <= 122 {
        u - 97 + 26
    } else if 48 <= u <= 57 {
        u - 48 + 52
    } else if c == '+' {
        62
    } else if c == '/' {
        63
    } else {
        -1
    }
}

/// Executable form of [`b64_spec`].
fn b64(c: char) -> (r: Option<u32>)
    ensures
        (r is Some) == (b64_spec(c) >= 0),
        r is Some ==> r->0 as int == b64_spec(c),
{
    let u = c as u32;
    if 65 <= u && u <= 90 {
        Some(u - 65)
    } else if 97 <= u && u <= 122 {
        Some(u - 97 + 26)
    } else if 48 <= u && u <= 57 {
        Some(u - 48 + 52)
    } else if c == '+' {
        Some(62)
    } else if c == '/' {
        Some(63)
    } else {
        None
    }
}

/// Values a running decoder field may take: past this bound a payload is
/// rejected as malformed rather than wrapped.
pub open spec fn in_field_range(v: int) -> bool {
    0 <= v < 0x8000_0000
}

/// The values of one mapping segment, decoded from the base64
/// variable-length quantities starting at `i`, together with the
/// position of the separator (or the end) that stopped the segment.
/// Oversized quantities make the whole payload malformed.
pub open spec fn vlq_values_spec(
    s: Seq<char>,
    i: int,
    cur: int,
    mult: int,
    pending: bool,
    vals: Seq<int>,
) -> Option<(Seq<int>, int)>
    decreases s.len() - i,
{
    if !(0 <= i <= s.len()) {
        None
    } else if i == s.len() || s[i] == ',' || s[i] == ';' {
        if pending {
            None
        } else {
            Some((vals, i))
        }
    } else if b64_spec(s[i]) < 0 {
        None
    } else {
        let v = b64_spec(s[i]);
        let cur2 = cur + (v % 32) * mult;
        if v >= 32 {
            if mult > 0x4_0000_0000_0000 {
                None
            } else {
                vlq_values_spec(s, i + 1, cur2, mult * 32, true, vals)
            }
        } else {
            let value = if cur2 % 2 == 1 {
                -(cur2 / 2)
            } else {
                cur2 / 2
            };
            vlq_values_spec(s, i + 1, 0, 1, false, vals.push(value))
        }
    }
}

/// Bounds under which the decoder's arithmetic stays exact: the
/// accumulator is always below the next digit's weight.
pub open spec fn vlq_state_ok(cur: int, mult: int) -> bool {
    0 <= cur < mult && 1 <= mult <= 0x80_0000_0000_0000
}

/// The accumulator stays in range while quantities are accepted.
pub proof fn lemma_vlq_state_step(cur: int, mult: int, v: int)
    requires
        vlq_state_ok(cur, mult),
        0 <= v < 64,
        mult <= 0x4_0000_0000_0000,
    ensures
        vlq_state_ok(cur + (v % 32) * mult, mult * 32),
        cur + (v % 32) * mult < 0x80_0000_0000_0000 * 32,
{
    assert(cur + (v % 32) * mult < mult * 32 && (v % 32) * mult <= 31 * mult) by (
    nonlinear_arith)
        requires
            0 <= v % 32 < 32,
            0 <= cur < mult,
            0 < mult,
    ;
}

/// Executable form of [`vlq_values_spec`].
fn vlq_values(s: &Vec<char>, i: usize, cur: i64, mult: i64, pending: bool, vals: Vec<i64>) -> (r:
    Option<(Vec<i64>, usize)>)
    requires
        i <= s@.len(),
        s@.len() + 16 <= usize::MAX,
        vlq_state_ok(cur as int, mult as int),
        forall|m: int| 0 <= m < vals@.len() ==> -0x800_0000_0000_0000 < (#[trigger] vals@[m])
            < 0x800_0000_0000_0000,
    ensures
        (r is Some) == (vlq_values_spec(s@, i as int, cur as int, mult as int, pending, vals@.map(
            |k: int, x: i64| x as int,
        )) is Some),
        r is Some ==> ({
            let (rv, rj) = r->0;
            let (sv, sj) = vlq_values_spec(s@, i as int, cur as int, mult as int, pending, vals@.map(
                |k: int, x: i64| x as int,
            ))->0;
            rv@.map(|k: int, x: i64| x as int) == sv && rj as int == sj && rj <= s@.len()
                && forall|m: int| 0 <= m < rv@.len() ==> -0x800_0000_0000_0000 < (#[trigger] rv@[m])
                < 0x800_0000_0000_0000
        }),
    decreases s@.len() - i,
{
    if i == s.len() || s[i] == ',' || s[i] == ';' {
        if pending {
            return None;
        }
        proof {
            let (sv, sj) = vlq_values_spec(
                s@,
                i as int,
                cur as int,
                mult as int,
                pending,
                vals@.map(|k: int, x: i64| x as int),
            )->0;
            assert(vals@.map(|k: int, x: i64| x as int) == sv);
        }
        return Some((vals, i));
    }
    let v = match b64(s[i]) {
        Some(v) => v,
        None => {
            return None;
        },
    };
    proof {
        assert(((v as int) % 32) * (mult as int) <= 31 * (mult as int) && 0 <= ((v as int) % 32) * (
        mult as int)) by (nonlinear_arith)
            requires
                0 <= (v as int) % 32 < 32,
                0 < mult as int,
        ;
    }
    let cur2: i64 = cur + ((v % 32) as i64) * mult;
    if v >= 32 {
        if mult > 0x4_0000_0000_0000 {
            return None;
        }
        proof {
            lemma_vlq_state_step(cur as int, mult as int, v as int);
        }
        vlq_values(s, i + 1, cur2, mult * 32, true, vals)
    } else {
        let value: i64 = if cur2 % 2 == 1 {
            -(cur2 / 2)
        } else {
            cur2 / 2
        };
        let mut vals2 = vals;
        vals2.push(value);
        proof {
            assert(vals2@.map(|k: int, x: i64| x as int) =~= vals@.map(|k: int, x: i64| x as int)
                .push(value as int));
        }
        vlq_values(s, i + 1, 0, 1, false, vals2)
    }
}

/// Applies one decoded segment to the running state: no values is an
/// empty segment; one value moves the generated column; four or five
/// values also move the original position. Any other count, a value out
/// of range or a source index past the source list is malformed.
pub open spec fn apply_seg_spec(
    vals: Seq<int>,
    col: int,
    sid: int,
    sline: int,
    scol: int,
    nsources: int,
    line: int,
) -> Option<(int, int, int, int, Option<Token>)> {
    if vals.len() == 0 {
        Some((col, sid, sline, scol, None))
    } else if vals.len() == 1 || vals.len() == 4 || vals.len() == 5 {
        let col2 = col + vals[0];
        if !in_field_range(col2) {
            None
        } else if vals.len() == 1 {
            Some(
                (
                    col2,
                    sid,
                    sline,
                    scol,
                    Some(
                        Token {
                            dst_line: line as u32,
                            dst_col: col2 as u32,
                            has_src: false,
                            src_id: 0,
                            src_line: 0,
                            src_col: 0,
                        },
                    ),
                ),
            )
        } else {
            let sid2 = sid + vals[1];
            let sline2 = sline + vals[2];
            let scol2 = scol + vals[3];
            if !in_field_range(sid2) || !in_field_range(sline2) || !in_field_range(scol2) || sid2
                >= nsources {
                None
            } else {
                Some(
                    (
                        col2,
                        sid2,
                        sline2,
                        scol2,
                        Some(
                            Token {
                                dst_line: line as u32,
                                dst_col: col2 as u32,
                                has_src: true,
                                src_id: sid2 as u32,
                                src_line: sline2 as u32,
                                src_col: scol2 as u32,
                            },
                        ),
                    ),
                )
            }
        }
    } else {
        None
    }
}

/// The tokens of the whole mapping payload from position `i` on, given
/// the running state. Generated lines count from `line`; columns reset
/// at every line break.
pub open spec fn decode_spec(
    s: Seq<char>,
    i: int,
    line: int,
    col: int,
    sid: int,
    sline: int,
    scol: int,
    nsources: int,
    tokens: Seq<Token>,
    fuel: nat,
) -> Option<Seq<Token>>
    decreases fuel,
{
    if fuel == 0 || !(0 <= i <= s.len()) {
        None
    } else {
        match vlq_values_spec(s, i, 0, 1, false, Seq::empty()) {
            None => None,
            Some((vals, j)) => match apply_seg_spec(vals, col, sid, sline, scol, nsources, line) {
                None => None,
                Some((col2, sid2, sline2, scol2, tok)) => {
                    let tokens2 = match tok {
                        Some(t) => tokens.push(t),
                        None => tokens,
                    };
                    if j == s.len() {
                        Some(tokens2)
                    } else if j < s.len() && s[j] == ',' {
                        decode_spec(
                            s,
                            j + 1,
                            line,
                            col2,
                            sid2,
                            sline2,
                            scol2,
                            nsources,
                            tokens2,
                            (fuel - 1) as nat,
                        )
                    } else if line + 1 < 0x8000_0000 {
                        decode_spec(
                            s,
                            j + 1,
                            line + 1,
                            0,
                            sid2,
                            sline2,
                            scol2,
                            nsources,
                            tokens2,
                            (fuel - 1) as nat,
                        )
                    } else {
                        None
                    }
                },
            },
        }
    }
}

/// The tokens of a whole mapping payload.
pub open spec fn decode_mappings_spec(s: Seq<char>, nsources: int) -> Option<Seq<Token>> {
    decode_spec(s, 0, 0, 0, 0, 0, 0, nsources, Seq::empty(), (s.len() + 1) as nat)
}

/// All of a token's fields fit the reported integer type.
pub open spec fn token_ok(t: Token) -> bool {
    in_field_range(t.dst_line as int) && in_field_range(t.dst_col as int) && in_field_range(
        t.src_id as int,
    ) && in_field_range(t.src_line as int) && in_field_range(t.src_col as int)
}

/// Executable form of [`decode_spec`].
#[verifier::rlimit(100)]
fn decode_at(
    s: &Vec<char>,
    i: usize,
    line: u32,
    col: u32,
    sid: u32,
    sline: u32,
    scol: u32,
    nsources: usize,
    tokens: Vec<Token>,
    fuel: usize,
) -> (r: Option<Vec<Token>>)
    requires
        i <= s@.len(),
        s@.len() + 16 <= usize::MAX,
        in_field_range(line as int),
        in_field_range(col as int),
        in_field_range(sid as int),
        in_field_range(sline as int),
        in_field_range(scol as int),
        forall|m: int| 0 <= m < tokens@.len() ==> token_ok(#[trigger] tokens@[m]),
    ensures
        (r is Some) == (decode_spec(
            s@,
            i as int,
            line as int,
            col as int,
            sid as int,
            sline as int,
            scol as int,
            nsources as int,
            tokens@,
            fuel as nat,
        ) is Some),
        r is Some ==> r->0@ == decode_spec(
            s@,
            i as int,
            line as int,
            col as int,
            sid as int,
            sline as int,
            scol as int,
            nsources as int,
            tokens@,
            fuel as nat,
        )->0,
        r is Some ==> forall|m: int|
            0 <= m < r->0@.len() ==> token_ok(#[trigger] r->0@[m]),
    decreases fuel,
{
    if fuel == 0 {
        return None;
    }
    let (vals, j) = match vlq_values(s, i, 0, 1, false, Vec::new()) {
        Some(p) => p,
        None => {
            proof {
                assert(Seq::<i64>::empty().map(|k: int, x: i64| x as int) =~= Seq::<int>::empty());
            }
            return None;
        },
    };
    proof {
        assert(Seq::<i64>::empty().map(|k: int, x: i64| x as int) =~= Seq::<int>::empty());
    }
    let ghost svals = vals@.map(|k: int, x: i64| x as int);
    let mut tokens2 = tokens;
    let col2: u32;
    let sid2: u32;
    let sline2: u32;
    let scol2: u32;
    if vals.len() == 0 {
        col2 = col;
        sid2 = sid;
        sline2 = sline;
        scol2 = scol;
    } else if vals.len() == 1 || vals.len() == 4 || vals.len() == 5 {
        let c2: i64 = col as i64 + vals[0];
        if !(0 <= c2 && c2 < 0x8000_0000) {
            return None;
        }
        col2 = c2 as u32;
        if vals.len() == 1 {
            sid2 = sid;
            sline2 = sline;
            scol2 = scol;
            tokens2.push(
                Token {
                    dst_line: line,
                    dst_col: col2,
                    has_src: false,
                    src_id: 0,
                    src_line: 0,
                    src_col: 0,
                },
            );
        } else {
            let s2: i64 = sid as i64 + vals[1];
            let l2: i64 = sline as i64 + vals[2];
            let k2: i64 = scol as i64 + vals[3];
            if !(0 <= s2 && s2 < 0x8000_0000) || !(0 <= l2 && l2 < 0x8000_0000) || !(0 <= k2 && k2
                < 0x8000_0000) {
                return None;
            }
            if s2 as usize >= nsources {
                return None;
            }
            sid2 = s2 as u32;
            sline2 = l2 as u32;
            scol2 = k2 as u32;
            tokens2.push(
                Token {
                    dst_line: line,
                    dst_col: col2,
                    has_src: true,
                    src_id: sid2,
                    src_line: sline2,
                    src_col: scol2,
                },
            );
        }
    } else {
        return None;
    }
    if j == s.len() {
        return Some(tokens2);
    }
    if s[j] == ',' {
        decode_at(s, j + 1, line, col2, sid2, sline2, scol2, nsources, tokens2, fuel - 1)
    } else {
        if !(line < 0x7FFF_FFFF) {
            return None;
        }
        decode_at(s, j + 1, line + 1, 0, sid2, sline2, scol2, nsources, tokens2, fuel - 1)
    }
}

/// Decodes a whole mapping payload into tokens.
pub fn decode_mappings(s: &Vec<char>, nsources: usize) -> (r: Option<Vec<Token>>)
    requires
        s@.len() + 16 <= usize::MAX,
    ensures
        (r is Some) == (decode_mappings_spec(s@, nsources as int) is Some),
        r is Some ==> r->0@ == decode_mappings_spec(s@, nsources as int)->0,
        r is Some ==> forall|m: int|
            0 <= m < r->0@.len() ==> token_ok(#[trigger] r->0@[m]),
{
    decode_at(s, 0, 0, 0, 0, 0, 0, nsources, Vec::new(), s.len() + 1)
}


/// The elements of the `sources` array from position `i` on: strings
/// keep their text, nulls read as empty names, anything else is
/// malformed.
pub open spec fn src_elems_spec(s: Seq<char>, i: int, fuel: nat, acc: Seq<Seq<char>>) -> Option<
    (Seq<Seq<char>>, int),
>
    decreases fuel,
{
    if fuel == 0 {
        None
    } else {
        let j = skip_ws_spec(s, i);
        if !(0 <= j < s.len()) {
            None
        } else {
            let elem: Option<(Seq<char>, int)> = if s[j] == '"' {
                str_body_spec(s, j + 1, (fuel - 1) as nat)
            } else if j + 4 <= s.len() && s.subrange(j, j + 4) == "null"@ {
                Some((Seq::empty(), j + 4))
            } else {
                None
            };
            match elem {
                None => None,
                Some((name, j2)) => {
                    let j3 = skip_ws_spec(s, j2);
                    if 0 <= j3 < s.len() && s[j3] == ',' {
                        src_elems_spec(s, j3 + 1, (fuel - 1) as nat, acc.push(name))
                    } else if 0 <= j3 < s.len() && s[j3] == ']' {
                        Some((acc.push(name), j3 + 1))
                    } else {
                        None
                    }
                },
            }
        }
    }
}

/// The whole `sources` array, whose opening bracket stands just before
/// `i`.
pub open spec fn sources_arr_spec(s: Seq<char>, i: int, fuel: nat) -> Option<(Seq<Seq<char>>, int)>
    decreases fuel,
{
    if fuel == 0 {
        None
    } else {
        let j = skip_ws_spec(s, i);
        if !(0 <= j < s.len()) {
            None
        } else if s[j] == ']' {
            Some((Seq::empty(), j + 1))
        } else {
            src_elems_spec(s, j, (fuel - 1) as nat, Seq::empty())
        }
    }
}

/// The members of the document object from position `i` on, carrying
/// the mappings text and source names seen so far (later keys win).
/// Yields the final fields and the position after the closing brace.
pub open spec fn doc_members_spec(
    s: Seq<char>,
    i: int,
    fuel: nat,
    mappings: Seq<char>,
    sources: Seq<Seq<char>>,
) -> Option<(Seq<char>, Seq<Seq<char>>, int)>
    decreases fuel,
{
    if fuel == 0 {
        None
    } else {
        let j = skip_ws_spec(s, i);
        if !(0 <= j < s.len() && s[j] == '"') {
            None
        } else {
            match str_body_spec(s, j + 1, (fuel - 1) as nat) {
                None => None,
                Some((key, j2)) => {
                    let j3 = skip_ws_spec(s, j2);
                    if !(0 <= j3 < s.len() && s[j3] == ':') {
                        None
                    } else {
                        let after: Option<(Seq<char>, Seq<Seq<char>>, int)> = if key
                            == "mappings"@ {
                            let j4 = skip_ws_spec(s, j3 + 1);
                            if !(0 <= j4 < s.len() && s[j4] == '"') {
                                None
                            } else {
                                match str_body_spec(s, j4 + 1, (fuel - 1) as nat) {
                                    None => None,
                                    Some((m, j5)) => Some((m, sources, j5)),
                                }
                            }
                        } else if key == "sources"@ {
                            let j4 = skip_ws_spec(s, j3 + 1);
                            if !(0 <= j4 < s.len() && s[j4] == '[') {
                                None
                            } else {
                                match sources_arr_spec(s, j4 + 1, (fuel - 1) as nat) {
                                    None => None,
                                    Some((src, j5)) => Some((mappings, src, j5)),
                                }
                            }
                        } else {
                            match value_skip_spec(s, j3 + 1, (fuel - 1) as nat) {
                                None => None,
                                Some(j5) => Some((mappings, sources, j5)),
                            }
                        };
                        match after {
                            None => None,
                            Some((m2, src2, j5)) => {
                                let j6 = skip_ws_spec(s, j5);
                                if 0 <= j6 < s.len() && s[j6] == ',' {
                                    doc_members_spec(s, j6 + 1, (fuel - 1) as nat, m2, src2)
                                } else if 0 <= j6 < s.len() && s[j6] == '}' {
                                    Some((m2, src2, j6 + 1))
                                } else {
                                    None
                                }
                            },
                        }
                    }
                },
            }
        }
    }
}

/// The fields of a whole source-map document: the text must be one JSON
/// object with nothing but whitespace after it; a missing `mappings` or
/// `sources` key reads as empty.
pub open spec fn parse_doc_spec(s: Seq<char>) -> Option<(Seq<char>, Seq<Seq<char>>)> {
    let j = skip_ws_spec(s, 0);
    if !(0 <= j < s.len() && s[j] == '{') {
        None
    } else {
        let j2 = skip_ws_spec(s, j + 1);
        let fields: Option<(Seq<char>, Seq<Seq<char>>, int)> = if 0 <= j2 < s.len() && s[j2]
            == '}' {
            Some((Seq::empty(), Seq::empty(), j2 + 1))
        } else {
            doc_members_spec(s, j + 1, (s.len() + 1) as nat, Seq::empty(), Seq::empty())
        };
        match fields {
            None => None,
            Some((m, src, end)) => {
                if skip_ws_spec(s, end) == s.len() {
                    Some((m, src))
                } else {
                    None
                }
            },
        }
    }
}

/// Executable form of [`src_elems_spec`].
fn src_elems(s: &Vec<char>, i: usize, fuel: usize, acc: Vec<Vec<char>>) -> (r: Option<
    (Vec<Vec<char>>, usize),
>)
    requires
        i <= s@.len(),
        s@.len() + 16 <= usize::MAX,
    ensures
        (r is Some) == (src_elems_spec(s@, i as int, fuel as nat, acc.deep_view()) is Some),
        r is Some ==> ({
            let (rv, rj) = r->0;
            let (sv, sj) = src_elems_spec(s@, i as int, fuel as nat, acc.deep_view())->0;
            rv.deep_view() == sv && rj as int == sj && rj <= s@.len()
        }),
    decreases fuel,
{
    if fuel == 0 {
        return None;
    }
    let j = skip_ws(s, i);
    if j >= s.len() {
        return None;
    }
    let elem: Option<(Vec<char>, usize)> = if s[j] == '"' {
        str_body(s, j + 1, fuel - 1)
    } else {
        let w: Vec<char> = vec!['n', 'u', 'l', 'l'];
        proof {
            assert(w@ =~= "null"@) by {
                reveal_strlit("null");
            }
        }
        if j + 4 <= s.len() && s[j] == 'n' && s[j + 1] == 'u' && s[j + 2] == 'l' && s[j + 3]
            == 'l' {
            proof {
                assert(s@.subrange(j as int, j as int + 4) =~= "null"@) by {
                    reveal_strlit("null");
                }
            }
            Some((Vec::new(), j + 4))
        } else {
            proof {
                if j + 4 <= s@.len() {
                    assert(s@.subrange(j as int, j as int + 4) == "null"@ ==> {
                        &&& s@[j as int] == "null"@[0]
                        &&& s@[j as int + 1] == "null"@[1]
                        &&& s@[j as int + 2] == "null"@[2]
                        &&& s@[j as int + 3] == "null"@[3]
                    });
                    assert("null"@[0] == 'n' && "null"@[1] == 'u' && "null"@[2] == 'l' && "null"@[3]
                        == 'l') by {
                        reveal_strlit("null");
                    }
                }
            }
            return None;
        }
    };
    let (name, j2) = match elem {
        Some(p) => p,
        None => {
            return None;
        },
    };
    let j3 = skip_ws(s, j2);
    if j3 < s.len() && s[j3] == ',' {
        let mut acc2 = acc;
        acc2.push(name);
        proof {
            assert(acc2.deep_view() =~~= acc.deep_view().push(name@));
        }
        src_elems(s, j3 + 1, fuel - 1, acc2)
    } else if j3 < s.len() && s[j3] == ']' {
        let mut acc2 = acc;
        acc2.push(name);
        proof {
            assert(acc2.deep_view() =~~= acc.deep_view().push(name@));
        }
        Some((acc2, j3 + 1))
    } else {
        None
    }
}


/// Executable form of [`sources_arr_spec`].
fn sources_arr(s: &Vec<char>, i: usize, fuel: usize) -> (r: Option<(Vec<Vec<char>>, usize)>)
    requires
        i <= s@.len(),
        s@.len() + 16 <= usize::MAX,
    ensures
        (r is Some) == (sources_arr_spec(s@, i as int, fuel as nat) is Some),
        r is Some ==> ({
            let (rv, rj) = r->0;
            let (sv, sj) = sources_arr_spec(s@, i as int, fuel as nat)->0;
            rv.deep_view() == sv && rj as int == sj && rj <= s@.len()
        }),
    decreases fuel,
{
    if fuel == 0 {
        return None;
    }
    let j = skip_ws(s, i);
    if j >= s.len() {
        return None;
    }
    if s[j] == ']' {
        let rv: Vec<Vec<char>> = Vec::new();
        proof {
            assert(rv.deep_view() =~~= Seq::<Seq<char>>::empty());
        }
        Some((rv, j + 1))
    } else {
        let acc: Vec<Vec<char>> = Vec::new();
        proof {
            assert(acc.deep_view() =~~= Seq::<Seq<char>>::empty());
        }
        src_elems(s, j, fuel - 1, acc)
    }
}

/// Executable form of [`doc_members_spec`].
fn doc_members(s: &Vec<char>, i: usize, fuel: usize, mappings: Vec<char>, sources: Vec<Vec<char>>)
    -> (r: Option<(Vec<char>, Vec<Vec<char>>, usize)>)
    requires
        i <= s@.len(),
        s@.len() + 16 <= usize::MAX,
    ensures
        (r is Some) == (doc_members_spec(s@, i as int, fuel as nat, mappings@, sources.deep_view())
            is Some),
        r is Some ==> ({
            let (rm, rs, rj) = r->0;
            let (sm, ss, sj) = doc_members_spec(
                s@,
                i as int,
                fuel as nat,
                mappings@,
                sources.deep_view(),
            )->0;
            rm@ == sm && rs.deep_view() == ss && rj as int == sj && rj <= s@.len()
        }),
    decreases fuel,
{
    if fuel == 0 {
        return None;
    }
    let j = skip_ws(s, i);
    if !(j < s.len() && s[j] == '"') {
        return None;
    }
    let (key, j2) = match str_body(s, j + 1, fuel - 1) {
        Some(p) => p,
        None => {
            return None;
        },
    };
    let j3 = skip_ws(s, j2);
    if !(j3 < s.len() && s[j3] == ':') {
        return None;
    }
    let wm: Vec<char> = vec!['m', 'a', 'p', 'p', 'i', 'n', 'g', 's'];
    let ws: Vec<char> = vec!['s', 'o', 'u', 'r', 'c', 'e', 's'];
    proof {
        assert(wm@ =~= "mappings"@) by {
            reveal_strlit("mappings");
        }
        assert(ws@ =~= "sources"@) by {
            reveal_strlit("sources");
        }
    }
    let m2: Vec<char>;
    let src2: Vec<Vec<char>>;
    let j5: usize;
    if chars_eq(&key, &wm) {
        let j4 = skip_ws(s, j3 + 1);
        if !(j4 < s.len() && s[j4] == '"') {
            return None;
        }
        let (m, k5) = match str_body(s, j4 + 1, fuel - 1) {
            Some(p) => p,
            None => {
                return None;
            },
        };
        m2 = m;
        src2 = sources;
        j5 = k5;
    } else if chars_eq(&key, &ws) {
        let j4 = skip_ws(s, j3 + 1);
        if !(j4 < s.len() && s[j4] == '[') {
            return None;
        }
        let (src, k5) = match sources_arr(s, j4 + 1, fuel - 1) {
            Some(p) => p,
            None => {
                return None;
            },
        };
        m2 = mappings;
        src2 = src;
        j5 = k5;
    } else {
        let k5 = match value_skip(s, j3 + 1, fuel - 1) {
            Some(p) => p,
            None => {
                return None;
            },
        };
        m2 = mappings;
        src2 = sources;
        j5 = k5;
    }
    let j6 = skip_ws(s, j5);
    if j6 < s.len() && s[j6] == ',' {
        doc_members(s, j6 + 1, fuel - 1, m2, src2)
    } else if j6 < s.len() && s[j6] == '}' {
        Some((m2, src2, j6 + 1))
    } else {
        None
    }
}

/// Compares two character vectors.
fn chars_eq(a: &Vec<char>, b: &Vec<char>) -> (r: bool)
    ensures
        r == (a@ == b@),
{
    if a.len() != b.len() {
        proof {
            assert(a@ == b@ ==> a@.len() == b@.len());
        }
        return false;
    }
    let mut k: usize = 0;
    while k < a.len()
        invariant
            a@.len() == b@.len(),
            0 <= k <= a@.len(),
            forall|m: int| 0 <= m < k ==> a@[m] == b@[m],
        decreases a@.len() - k,
    {
        if a[k] != b[k] {
            proof {
                assert(a@ == b@ ==> a@[k as int] == b@[k as int]);
            }
            return false;
        }
        k = k + 1;
    }
    proof {
        assert(a@ =~= b@);
    }
    true
}

/// Executable form of [`parse_doc_spec`].
pub fn parse_doc(s: &Vec<char>) -> (r: Option<(Vec<char>, Vec<Vec<char>>)>)
    requires
        s@.len() + 16 <= usize::MAX,
    ensures
        (r is Some) == (parse_doc_spec(s@) is Some),
        r is Some ==> ({
            let (rm, rs) = r->0;
            let (sm, ss) = parse_doc_spec(s@)->0;
            rm@ == sm && rs.deep_view() == ss
        }),
{
    let j = skip_ws(s, 0);
    if !(j < s.len() && s[j] == '{') {
        return None;
    }
    let j2 = skip_ws(s, j + 1);
    let m: Vec<char>;
    let src: Vec<Vec<char>>;
    let end: usize;
    if j2 < s.len() && s[j2] == '}' {
        m = Vec::new();
        src = Vec::new();
        end = j2 + 1;
        proof {
            assert(src.deep_view() =~~= Seq::<Seq<char>>::empty());
        }
    } else {
        let acc: Vec<Vec<char>> = Vec::new();
        proof {
            assert(acc.deep_view() =~~= Seq::<Seq<char>>::empty());
        }
        let (rm, rs, rj) = match doc_members(s, j + 1, s.len() + 1, Vec::new(), acc) {
            Some(p) => p,
            None => {
                return None;
            },
        };
        m = rm;
        src = rs;
        end = rj;
    }
    let tail = skip_ws(s, end);
    if tail == s.len() {
        Some((m, src))
    } else {
        None
    }
}

/// Whether token `t` lies on generated line `line` at or before
/// column `col`.
pub open spec fn token_matches(t: Token, line: int, col: int) -> bool {
    t.dst_line == line && t.dst_col <= col
}

/// The index of the best token for a generated position: among the
/// tokens on the same line at or before the column, one with the
/// greatest column, the latest such token when columns tie.
pub open spec fn best_token_spec(tokens: Seq<Token>, line: int, col: int) -> Option<int>
    decreases tokens.len(),
{
    if tokens.len() == 0 {
        None
    } else {
        let r = best_token_spec(tokens.drop_last(), line, col);
        let t = tokens.last();
        if token_matches(t, line, col) && (r is None || tokens[r->0].dst_col <= t.dst_col) {
            Some(tokens.len() - 1)
        } else {
            r
        }
    }
}

/// What the best-token index satisfies: nothing matches when it is
/// absent; otherwise it points at a matching token of maximal column.
pub proof fn lemma_best_token_props(tokens: Seq<Token>, line: int, col: int)
    ensures
        match best_token_spec(tokens, line, col) {
            None => forall|i: int|
                0 <= i < tokens.len() ==> !token_matches(#[trigger] tokens[i], line, col),
            Some(b) => 0 <= b < tokens.len() && token_matches(tokens[b], line, col) && forall|
                i: int,
            |
                0 <= i < tokens.len() && token_matches(#[trigger] tokens[i], line, col)
                    ==> tokens[i].dst_col <= tokens[b].dst_col,
        },
    decreases tokens.len(),
{
    if tokens.len() > 0 {
        lemma_best_token_props(tokens.drop_last(), line, col);
        assert(forall|i: int|
            0 <= i < tokens.len() - 1 ==> #[trigger] tokens[i] == tokens.drop_last()[i]);
    }
}

/// Finds the best token for a generated position.
pub fn find_token(tokens: &Vec<Token>, line: u32, col: u32) -> (r: Option<usize>)
    ensures
        (r is Some) == (best_token_spec(tokens@, line as int, col as int) is Some),
        r is Some ==> r->0 as int == best_token_spec(tokens@, line as int, col as int)->0,
{
    let mut best: Option<usize> = None;
    let mut k: usize = 0;
    while k < tokens.len()
        invariant
            0 <= k <= tokens@.len(),
            (best is Some) == (best_token_spec(tokens@.take(k as int), line as int, col as int)
                is Some),
            best is Some ==> best->0 as int == best_token_spec(
                tokens@.take(k as int),
                line as int,
                col as int,
            )->0 && best->0 < k,
        decreases tokens@.len() - k,
    {
        let t = tokens[k];
        proof {
            assert(tokens@.take(k as int + 1).drop_last() =~= tokens@.take(k as int));
            assert(tokens@.take(k as int + 1).last() == tokens@[k as int]);
            assert(forall|m: int|
                0 <= m < k ==> #[trigger] tokens@.take(k as int + 1)[m] == tokens@.take(
                    k as int,
                )[m]);
        }
        let better: bool = if t.dst_line == line && t.dst_col <= col {
            match best {
                None => true,
                Some(b) => tokens[b].dst_col <= t.dst_col,
            }
        } else {
            false
        };
        if better {
            best = Some(k);
        }
        k = k + 1;
    }
    proof {
        assert(tokens@.take(tokens@.len() as int) =~= tokens@);
    }
    best
}

} // verus!
