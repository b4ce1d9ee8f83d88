//! A small JSON reader over character sequences: enough of the grammar
//! to pull the fields of a source-map document out of its text.
//!
//! Every executable function mirrors a specification function of the
//! same shape; recursion is bounded by an explicit fuel, which callers
//! seed with the input length plus a margin.

use vstd::prelude::*;

verus! {

/// JSON whitespace.
pub open spec fn is_ws(c: char) -> bool {
    c == ' ' || c == '\n' || c == '\r' || c == '\t'
}

/// An ASCII decimal digit.
pub open spec fn is_digit(c: char) -> bool {
    48 <= (c as u32) <= 57
}

/// The first position at or after `i` that holds no whitespace.
pub open spec fn skip_ws_spec(s: Seq<char>, i: int) -> int
    decreases s.len() - i,
{
    if 0 <= i < s.len() && is_ws(s[i]) {
        skip_ws_spec(s, i + 1)
    } else {
        i
    }
}

/// Executable form of [`skip_ws_spec`].
pub fn skip_ws(s: &Vec<char>, i: usize) -> (r: usize)
    requires
        i <= s@.len(),
    ensures
        r as int == skip_ws_spec(s@, i as int),
        i <= r <= s@.len(),
    decreases s@.len() - i,
{
    if i < s.len() {
        let c = s[i];
        if c == ' ' || c == '\n' || c == '\r' || c == '\t' {
            return skip_ws(s, i + 1);
        }
    }
    i
}

/// The first position at or after `i` that holds no digit.
pub open spec fn skip_digits_spec(s: Seq<char>, i: int) -> int
    decreases s.len() - i,
{
    if 0 <= i < s.len() && is_digit(s[i]) {
        skip_digits_spec(s, i + 1)
    } else {
        i
    }
}

/// Executable form of [`skip_digits_spec`].
fn skip_digits(s: &Vec<char>, i: usize) -> (r: usize)
    requires
        i <= s@.len(),
    ensures
        r as int == skip_digits_spec(s@, i as int),
        i <= r <= s@.len(),
    decreases s@.len() - i,
{
    if i < s.len() {
        let u = s[i] as u32;
        if 48 <= u && u <= 57 {
            return skip_digits(s, i + 1);
        }
    }
    i
}

/// The value of a hexadecimal digit, or a negative marker.
pub open spec fn hex_val_spec(c: char) -> int {
    let u = c as u32;
    if 48 <= u <= 57 {
        u - 48
    } else if 97 <= u <= 102 {
        u - 87
    } else if 65 <= u <= 70 {
        u - 55
    } else {
        -1
    }
}

/// The value of four hexadecimal digits at `i`, or a negative marker.
pub open spec fn hex4_spec(s: Seq<char>, i: int) -> int {
    if hex_val_spec(s[i]) < 0 || hex_val_spec(s[i + 1]) < 0 || hex_val_spec(s[i + 2]) < 0
        || hex_val_spec(s[i + 3]) < 0 {
        -1
    } else {
        hex_val_spec(s[i]) * 0x1000 + hex_val_spec(s[i + 1]) * 0x100 + hex_val_spec(s[i + 2]) * 0x10
            + hex_val_spec(s[i + 3])
    }
}

/// Executable form of [`hex4_spec`].
fn hex4(s: &Vec<char>, i: usize) -> (r: Option<u32>)
    requires
        i + 4 <= s@.len(),
        s@.len() + 16 <= usize::MAX,
    ensures
        (r is Some) == (hex4_spec(s@, i as int) >= 0),
        r is Some ==> r->0 as int == hex4_spec(s@, i as int),
{
    let h0 = hex_val(s[i]);
    let h1 = hex_val(s[i + 1]);
    let h2 = hex_val(s[i + 2]);
    let h3 = hex_val(s[i + 3]);
    match (h0, h1, h2, h3) {
        (Some(a), Some(b), Some(c), Some(d)) => Some(a * 0x1000 + b * 0x100 + c * 0x10 + d),
        _ => None,
    }
}

/// Executable form of [`hex_val_spec`].
fn hex_val(c: char) -> (r: Option<u32>)
    ensures
        (r is Some) == (hex_val_spec(c) >= 0),
        r is Some ==> r->0 as int == hex_val_spec(c),
{
    let u = c as u32;
    if 48 <= u && u <= 57 {
        Some(u - 48)
    } else if 97 <= u && u <= 102 {
        Some(u - 87)
    } else if 65 <= u && u <= 70 {
        Some(u - 55)
    } else {
        None
    }
}

/// A Unicode scalar value (a valid `char` code).
pub open spec fn valid_scalar(u: int) -> bool {
    (0 <= u < 0xD800) || (0xE000 <= u <= 0x10FFFF)
}

/// The character a simple escape letter stands for, or a negative
/// marker when the letter is no simple escape.
pub open spec fn simple_escape_spec(c: char) -> int {
    if c == '"' {
        34
    } else if c == '\\' {
        92
    } else if c == '/' {
        47
    } else if c == 'b' {
        8
    } else if c == 'f' {
        12
    } else if c == 'n' {
        10
    } else if c == 'r' {
        13
    } else if c == 't' {
        9
    } else {
        -1
    }
}

/// The body of a JSON string starting at `i` (just after the opening
/// quote): its decoded characters and the position after the closing
/// quote.
pub open spec fn str_body_spec(s: Seq<char>, i: int, fuel: nat) -> Option<(Seq<char>, int)>
    decreases fuel,
{
    if fuel == 0 || !(0 <= i < s.len()) {
        None
    } else {
        let c = s[i];
        if c == '"' {
            Some((Seq::empty(), i + 1))
        } else if c == '\\' {
            if i + 1 >= s.len() {
                None
            } else {
                let e = s[i + 1];
                if simple_escape_spec(e) >= 0 {
                    match str_body_spec(s, i + 2, (fuel - 1) as nat) {
                        Some((t, j)) => Some(
                            (seq![((simple_escape_spec(e) as u32) as char)] + t, j),
                        ),
                        None => None,
                    }
                } else if e == 'u' {
                    if i + 6 > s.len() {
                        None
                    } else {
                        let h = hex4_spec(s, i + 2);
                        if h < 0 {
                            None
                        } else if 0xD800 <= h < 0xDC00 {
                            if i + 12 > s.len() || s[i + 6] != '\\' || s[i + 7] != 'u' {
                                None
                            } else {
                                let h2 = hex4_spec(s, i + 8);
                                if !(0xDC00 <= h2 < 0xE000) {
                                    None
                                } else {
                                    let u = 0x10000 + (h - 0xD800) * 0x400 + (h2 - 0xDC00);
                                    match str_body_spec(s, i + 12, (fuel - 1) as nat) {
                                        Some((t, j)) => Some((seq![((u as u32) as char)] + t, j)),
                                        None => None,
                                    }
                                }
                            }
                        } else if 0xDC00 <= h < 0xE000 {
                            None
                        } else {
                            match str_body_spec(s, i + 6, (fuel - 1) as nat) {
                                Some((t, j)) => Some((seq![((h as u32) as char)] + t, j)),
                                None => None,
                            }
                        }
                    }
                } else {
                    None
                }
            }
        } else {
            match str_body_spec(s, i + 1, (fuel - 1) as nat) {
                Some((t, j)) => Some((seq![c] + t, j)),
                None => None,
            }
        }
    }
}

/// Executable form of [`str_body_spec`].
pub fn str_body(s: &Vec<char>, i: usize, fuel: usize) -> (r: Option<(Vec<char>, usize)>)
    requires
        i <= s@.len(),
        s@.len() + 16 <= usize::MAX,
    ensures
        (r is Some) == (str_body_spec(s@, i as int, fuel as nat) is Some),
        r is Some ==> ({
            let (rt, rj) = r->0;
            let (t, j) = str_body_spec(s@, i as int, fuel as nat)->0;
            rt@ == t && rj as int == j && rj <= s@.len()
        }),
    decreases fuel,
{
    if fuel == 0 || i >= s.len() {
        return None;
    }
    let c = s[i];
    if c == '"' {
        return Some((Vec::new(), i + 1));
    }
    if c == '\\' {
        if i + 1 >= s.len() {
            return None;
        }
        let e = s[i + 1];
        let sim: Option<char> = if e == '"' {
            Some('"')
        } else if e == '\\' {
            Some('\\')
        } else if e == '/' {
            Some('/')
        } else if e == 'b' {
            Some('\u{8}')
        } else if e == 'f' {
            Some('\u{c}')
        } else if e == 'n' {
            Some('\n')
        } else if e == 'r' {
            Some('\r')
        } else if e == 't' {
            Some('\t')
        } else {
            None
        };
        match sim {
            Some(rc) => {
                match str_body(s, i + 2, fuel - 1) {
                    Some((mut t, j)) => {
                        t.insert(0, rc);
                        proof {
                            let sp = str_body_spec(s@, i as int, fuel as nat)->0;
                            assert(t@ =~= sp.0);
                        }
                        return Some((t, j));
                    },
                    None => {
                        return None;
                    },
                }
            },
            None => {},
        }
        if e == 'u' {
            if i + 6 > s.len() {
                return None;
            }
            let h = match hex4(s, i + 2) {
                Some(h) => h,
                None => {
                    return None;
                },
            };
            if 0xD800 <= h && h < 0xDC00 {
                if i + 12 > s.len() || s[i + 6] != '\\' || s[i + 7] != 'u' {
                    return None;
                }
                let h2 = match hex4(s, i + 8) {
                    Some(h2) => h2,
                    None => {
                        return None;
                    },
                };
                if !(0xDC00 <= h2 && h2 < 0xE000) {
                    return None;
                }
                let u: u32 = 0x10000 + (h - 0xD800) * 0x400 + (h2 - 0xDC00);
                let rc = match char_of_u32(u) {
                    Some(rc) => rc,
                    None => {
                        return None;
                    },
                };
                match str_body(s, i + 12, fuel - 1) {
                    Some((mut t, j)) => {
                        t.insert(0, rc);
                        proof {
                            let sp = str_body_spec(s@, i as int, fuel as nat)->0;
                            assert(t@ =~= sp.0);
                        }
                        return Some((t, j));
                    },
                    None => {
                        return None;
                    },
                }
            } else if 0xDC00 <= h && h < 0xE000 {
                return None;
            } else {
                let rc = match char_of_u32(h) {
                    Some(rc) => rc,
                    None => {
                        return None;
                    },
                };
                match str_body(s, i + 6, fuel - 1) {
                    Some((mut t, j)) => {
                        t.insert(0, rc);
                        proof {
                            let sp = str_body_spec(s@, i as int, fuel as nat)->0;
                            assert(t@ =~= sp.0);
                        }
                        return Some((t, j));
                    },
                    None => {
                        return None;
                    },
                }
            }
        }
        return None;
    }
    match str_body(s, i + 1, fuel - 1) {
        Some((mut t, j)) => {
            t.insert(0, c);
            proof {
                let sp = str_body_spec(s@, i as int, fuel as nat)->0;
                assert(t@ =~= sp.0);
            }
            Some((t, j))
        },
        None => None,
    }
}

/// Relies on char::from_u32: it returns the character of a valid
/// Unicode scalar value and nothing for any other number.
#[verifier::external_body]
fn char_of_u32(u: u32) -> (r: Option<char>)
    ensures
        (r is Some) == valid_scalar(u as int),
        r is Some ==> r->0 == ((u as u32) as char),
{
    char::from_u32(u)
}

/// The position after a JSON number starting at `i`, or nothing when no
/// number starts there.
pub open spec fn num_skip_spec(s: Seq<char>, i: int) -> Option<int> {
    if !(0 <= i < s.len()) {
        None
    } else {
        let i1 = if s[i] == '-' {
            i + 1
        } else {
            i
        };
        if !(i1 < s.len() && is_digit(s[i1])) {
            None
        } else {
            let i2 = skip_digits_spec(s, i1);
            let i3 = if i2 < s.len() && s[i2] == '.' {
                if i2 + 1 < s.len() && is_digit(s[i2 + 1]) {
                    skip_digits_spec(s, i2 + 1)
                } else {
                    -1
                }
            } else {
                i2
            };
            if i3 < 0 {
                None
            } else {
                if i3 < s.len() && (s[i3] == 'e' || s[i3] == 'E') {
                    let i4 = if i3 + 1 < s.len() && (s[i3 + 1] == '+' || s[i3 + 1] == '-') {
                        i3 + 2
                    } else {
                        i3 + 1
                    };
                    if i4 < s.len() && is_digit(s[i4]) {
                        Some(skip_digits_spec(s, i4))
                    } else {
                        None
                    }
                } else {
                    Some(i3)
                }
            }
        }
    }
}

/// Executable form of [`num_skip_spec`].
fn num_skip(s: &Vec<char>, i: usize) -> (r: Option<usize>)
    requires
        i <= s@.len(),
        s@.len() + 16 <= usize::MAX,
    ensures
        (r is Some) == (num_skip_spec(s@, i as int) is Some),
        r is Some ==> r->0 as int == num_skip_spec(s@, i as int)->0 && r->0 <= s@.len(),
{
    if i >= s.len() {
        return None;
    }
    let i1 = if s[i] == '-' {
        i + 1
    } else {
        i
    };
    if !(i1 < s.len()) {
        return None;
    }
    let u1 = s[i1] as u32;
    if !(48 <= u1 && u1 <= 57) {
        return None;
    }
    let i2 = skip_digits(s, i1);
    let i3: usize = if i2 < s.len() && s[i2] == '.' {
        if i2 + 1 < s.len() {
            let u2 = s[i2 + 1] as u32;
            if 48 <= u2 && u2 <= 57 {
                skip_digits(s, i2 + 1)
            } else {
                return None;
            }
        } else {
            return None;
        }
    } else {
        i2
    };
    if i3 < s.len() && (s[i3] == 'e' || s[i3] == 'E') {
        let i4 = if i3 + 1 < s.len() && (s[i3 + 1] == '+' || s[i3 + 1] == '-') {
            i3 + 2
        } else {
            i3 + 1
        };
        if i4 < s.len() {
            let u4 = s[i4] as u32;
            if 48 <= u4 && u4 <= 57 {
                return Some(skip_digits(s, i4));
            }
        }
        return None;
    }
    Some(i3)
}

/// The four JSON literal words.
pub open spec fn lit_at_spec(s: Seq<char>, i: int, w: Seq<char>) -> bool {
    i + w.len() <= s.len() && s.subrange(i, i + w.len() as int) == w
}

/// The position after any JSON value starting (after whitespace) at
/// `i`, or nothing when the text there is not a value.
pub open spec fn value_skip_spec(s: Seq<char>, i: int, fuel: nat) -> Option<int>
    decreases fuel,
{
    if fuel == 0 {
        None
    } else {
        let j = skip_ws_spec(s, i);
        if !(0 <= j < s.len()) {
            None
        } else {
            let c = s[j];
            if c == '"' {
                match str_body_spec(s, j + 1, (fuel - 1) as nat) {
                    Some((_t, k)) => Some(k),
                    None => None,
                }
            } else if c == '{' {
                obj_rest_spec(s, j + 1, (fuel - 1) as nat)
            } else if c == '[' {
                arr_rest_spec(s, j + 1, (fuel - 1) as nat)
            } else if c == 't' {
                if lit_at_spec(s, j, "true"@) {
                    Some(j + 4)
                } else {
                    None
                }
            } else if c == 'f' {
                if lit_at_spec(s, j, "false"@) {
                    Some(j + 5)
                } else {
                    None
                }
            } else if c == 'n' {
                if lit_at_spec(s, j, "null"@) {
                    Some(j + 4)
                } else {
                    None
                }
            } else {
                num_skip_spec(s, j)
            }
        }
    }
}

/// The position after the members and closing brace of an object whose
/// opening brace stands just before `i`.
pub open spec fn obj_rest_spec(s: Seq<char>, i: int, fuel: nat) -> Option<int>
    decreases fuel,
{
    if fuel == 0 {
        None
    } else {
        let j = skip_ws_spec(s, i);
        if !(0 <= j < s.len()) {
            None
        } else if s[j] == '}' {
            Some(j + 1)
        } else {
            obj_members_spec(s, j, (fuel - 1) as nat)
        }
    }
}

/// The position after one or more members and the closing brace.
pub open spec fn obj_members_spec(s: Seq<char>, i: int, fuel: nat) -> Option<int>
    decreases fuel,
{
    if fuel == 0 {
        None
    } else {
        let j = skip_ws_spec(s, i);
        if !(0 <= j < s.len() && s[j] == '"') {
            None
        } else {
            match str_body_spec(s, j + 1, (fuel - 1) as nat) {
                None => None,
                Some((_k, j2)) => {
                    let j3 = skip_ws_spec(s, j2);
                    if !(0 <= j3 < s.len() && s[j3] == ':') {
                        None
                    } else {
                        match value_skip_spec(s, j3 + 1, (fuel - 1) as nat) {
                            None => None,
                            Some(j4) => {
                                let j5 = skip_ws_spec(s, j4);
                                if 0 <= j5 < s.len() && s[j5] == ',' {
                                    obj_members_spec(s, j5 + 1, (fuel - 1) as nat)
                                } else if 0 <= j5 < s.len() && s[j5] == '}' {
                                    Some(j5 + 1)
                                } else {
                                    None
                                }
                            },
                        }
                    }
                },
            }
        }
    }
}

/// The position after the elements and closing bracket of an array
/// whose opening bracket stands just before `i`.
pub open spec fn arr_rest_spec(s: Seq<char>, i: int, fuel: nat) -> Option<int>
    decreases fuel,
{
    if fuel == 0 {
        None
    } else {
        let j = skip_ws_spec(s, i);
        if !(0 <= j < s.len()) {
            None
        } else if s[j] == ']' {
            Some(j + 1)
        } else {
            arr_elems_spec(s, j, (fuel - 1) as nat)
        }
    }
}

/// The position after one or more elements and the closing bracket.
pub open spec fn arr_elems_spec(s: Seq<char>, i: int, fuel: nat) -> Option<int>
    decreases fuel,
{
    if fuel == 0 {
        None
    } else {
        match value_skip_spec(s, i, (fuel - 1) as nat) {
            None => None,
            Some(j) => {
                let j2 = skip_ws_spec(s, j);
                if 0 <= j2 < s.len() && s[j2] == ',' {
                    arr_elems_spec(s, j2 + 1, (fuel - 1) as nat)
                } else if 0 <= j2 < s.len() && s[j2] == ']' {
                    Some(j2 + 1)
                } else {
                    None
                }
            },
        }
    }
}

/// Tests whether the four-or-five-letter literal `w` stands at `j`.
fn lit_at(s: &Vec<char>, j: usize, w: &Vec<char>) -> (r: bool)
    requires
        j <= s@.len(),
        s@.len() + 16 <= usize::MAX,
        w@.len() <= 8,
    ensures
        r == lit_at_spec(s@, j as int, w@),
{
    if j + w.len() > s.len() {
        proof {
            assert(!lit_at_spec(s@, j as int, w@));
        }
        return false;
    }
    let mut k: usize = 0;
    while k < w.len()
        invariant
            j + w@.len() <= s@.len(),
            s@.len() + 16 <= usize::MAX,
            0 <= k <= w@.len(),
            forall|m: int| 0 <= m < k ==> s@[j + m] == w@[m],
        decreases w@.len() - k,
    {
        if s[j + k] != w[k] {
            proof {
                assert(s@.subrange(j as int, j + w@.len()) =~= w@ ==> s@.subrange(
                    j as int,
                    j + w@.len(),
                )[k as int] == w@[k as int]);
                assert(s@.subrange(j as int, j + w@.len())[k as int] == s@[j + k]);
            }
            return false;
        }
        k = k + 1;
    }
    proof {
        assert(s@.subrange(j as int, j + w@.len()) =~= w@);
    }
    true
}

/// Executable form of [`value_skip_spec`].
pub fn value_skip(s: &Vec<char>, i: usize, fuel: usize) -> (r: Option<usize>)
    requires
        i <= s@.len(),
        s@.len() + 16 <= usize::MAX,
    ensures
        (r is Some) == (value_skip_spec(s@, i as int, fuel as nat) is Some),
        r is Some ==> r->0 as int == value_skip_spec(s@, i as int, fuel as nat)->0 && r->0
            <= s@.len(),
    decreases fuel,
{
    if fuel == 0 {
        return None;
    }
    let j = skip_ws(s, i);
    if j >= s.len() {
        return None;
    }
    let c = s[j];
    if c == '"' {
        match str_body(s, j + 1, fuel - 1) {
            Some((_t, k)) => Some(k),
            None => None,
        }
    } else if c == '{' {
        obj_rest(s, j + 1, fuel - 1)
    } else if c == '[' {
        arr_rest(s, j + 1, fuel - 1)
    } else if c == 't' {
        let w: Vec<char> = vec!['t', 'r', 'u', 'e'];
        proof {
            assert(w@ =~= "true"@) by {
                reveal_strlit("true");
            }
        }
        if lit_at(s, j, &w) {
            Some(j + 4)
        } else {
            None
        }
    } else if c == 'f' {
        let w: Vec<char> = vec!['f', 'a', 'l', 's', 'e'];
        proof {
            assert(w@ =~= "false"@) by {
                reveal_strlit("false");
            }
        }
        if lit_at(s, j, &w) {
            Some(j + 5)
        } else {
            None
        }
    } else if c == 'n' {
        let w: Vec<char> = vec!['n', 'u', 'l', 'l'];
        proof {
            assert(w@ =~= "null"@) by {
                reveal_strlit("null");
            }
        }
        if lit_at(s, j, &w) {
            Some(j + 4)
        } else {
            None
        }
    } else {
        num_skip(s, j)
    }
}

/// Executable form of [`obj_rest_spec`].
pub fn obj_rest(s: &Vec<char>, i: usize, fuel: usize) -> (r: Option<usize>)
    requires
        i <= s@.len(),
        s@.len() + 16 <= usize::MAX,
    ensures
        (r is Some) == (obj_rest_spec(s@, i as int, fuel as nat) is Some),
        r is Some ==> r->0 as int == obj_rest_spec(s@, i as int, fuel as nat)->0 && r->0
            <= s@.len(),
    decreases fuel,
{
    if fuel == 0 {
        return None;
    }
    let j = skip_ws(s, i);
    if j >= s.len() {
        return None;
    }
    if s[j] == '}' {
        Some(j + 1)
    } else {
        obj_members(s, j, fuel - 1)
    }
}

/// Executable form of [`obj_members_spec`].
fn obj_members(s: &Vec<char>, i: usize, fuel: usize) -> (r: Option<usize>)
    requires
        i <= s@.len(),
        s@.len() + 16 <= usize::MAX,
    ensures
        (r is Some) == (obj_members_spec(s@, i as int, fuel as nat) is Some),
        r is Some ==> r->0 as int == obj_members_spec(s@, i as int, fuel as nat)->0 && r->0
            <= s@.len(),
    decreases fuel,
{
    if fuel == 0 {
        return None;
    }
    let j = skip_ws(s, i);
    if !(j < s.len() && s[j] == '"') {
        return None;
    }
    let (_k, j2) = match str_body(s, j + 1, fuel - 1) {
        Some(p) => p,
        None => {
            return None;
        },
    };
    let j3 = skip_ws(s, j2);
    if !(j3 < s.len() && s[j3] == ':') {
        return None;
    }
    let j4 = match value_skip(s, j3 + 1, fuel - 1) {
        Some(j4) => j4,
        None => {
            return None;
        },
    };
    let j5 = skip_ws(s, j4);
    if j5 < s.len() && s[j5] == ',' {
        obj_members(s, j5 + 1, fuel - 1)
    } else if j5 < s.len() && s[j5] == '}' {
        Some(j5 + 1)
    } else {
        None
    }
}

/// Executable form of [`arr_rest_spec`].
pub fn arr_rest(s: &Vec<char>, i: usize, fuel: usize) -> (r: Option<usize>)
    requires
        i <= s@.len(),
        s@.len() + 16 <= usize::MAX,
    ensures
        (r is Some) == (arr_rest_spec(s@, i as int, fuel as nat) is Some),
        r is Some ==> r->0 as int == arr_rest_spec(s@, i as int, fuel as nat)->0 && r->0
            <= s@.len(),
    decreases fuel,
{
    if fuel == 0 {
        return None;
    }
    let j = skip_ws(s, i);
    if j >= s.len() {
        return None;
    }
    if s[j] == ']' {
        Some(j + 1)
    } else {
        arr_elems(s, j, fuel - 1)
    }
}

/// Executable form of [`arr_elems_spec`].
fn arr_elems(s: &Vec<char>, i: usize, fuel: usize) -> (r: Option<usize>)
    requires
        i <= s@.len(),
        s@.len() + 16 <= usize::MAX,
    ensures
        (r is Some) == (arr_elems_spec(s@, i as int, fuel as nat) is Some),
        r is Some ==> r->0 as int == arr_elems_spec(s@, i as int, fuel as nat)->0 && r->0
            <= s@.len(),
    decreases fuel,
{
    if fuel == 0 {
        return None;
    }
    let j = match value_skip(s, i, fuel - 1) {
        Some(j) => j,
        None => {
            return None;
        },
    };
    let j2 = skip_ws(s, j);
    if j2 < s.len() && s[j2] == ',' {
        arr_elems(s, j2 + 1, fuel - 1)
    } else if j2 < s.len() && s[j2] == ']' {
        Some(j2 + 1)
    } else {
        None
    }
}

} // verus!
