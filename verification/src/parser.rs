//! The `name = value;` text format: a tolerant parser for level metadata.
//! Comments run from `#` to the end of the line; whitespace in names is
//! ignored; malformed entries are skipped rather than rejected.
use vstd::prelude::*;

verus! {

/// The comment marker: text from it to the end of the line is dropped.
pub const COMMENT_START: char = '#';

/// Relies on String::push: appends exactly the one character.
#[verifier::external_body]
pub(crate) fn push_char(s: &mut String, c: char)
    ensures
        final(s)@ == old(s)@ + seq![c],
{
    s.push(c);
}

/// A whitespace character as the parser counts them.
pub open spec fn spec_is_space(c: char) -> bool {
    c == '\n' || c == '\t' || c == ' ' || c == '\r'
}

/// The string with every whitespace character removed.
pub open spec fn spec_remove_whitespace(s: Seq<char>) -> Seq<char> {
    s.filter(|c: char| !spec_is_space(c))
}

/// Remove spaces, tabs and line breaks.
pub fn remove_whitespace(s: &str) -> (res: String)
    ensures
        res@ == spec_remove_whitespace(s@),
{
    let n = s.unicode_len();
    let mut res = String::new();
    let mut i: usize = 0;
    proof {
        reveal(Seq::filter);
        assert(s@.subrange(0, 0) =~= Seq::<char>::empty());
    }
    while i < n
        invariant
            0 <= i <= n,
            n == s@.len(),
            res@ == s@.subrange(0, i as int).filter(|c: char| !spec_is_space(c)),
        decreases n - i,
    {
        let ghost pre = s@.subrange(0, i as int);
        let c = s.get_char(i);
        if !(c == '\n' || c == '\t' || c == ' ' || c == '\r') {
            push_char(&mut res, c);
        }
        i += 1;
        proof {
            reveal(Seq::filter);
            assert(s@.subrange(0, i as int) =~= pre.push(c));
            assert(pre.push(c).drop_last() =~= pre);
            assert(pre.push(c).filter(|c: char| !spec_is_space(c)) == (if !spec_is_space(c) {
                pre.filter(|c: char| !spec_is_space(c)).push(c)
            } else {
                pre.filter(|c: char| !spec_is_space(c))
            }));
        }
    }
    proof {
        assert(s@.subrange(0, n as int) =~= s@);
    }
    res
}

/// The numeric value of a decimal digit character, or none.
pub open spec fn spec_digit_val(c: char) -> Option<int> {
    if '0' <= c && c <= '9' {
        Option::Some(c as int - 48)
    } else {
        Option::None
    }
}

/// The integer-parse accumulator after one character: digits extend the
/// magnitude (saturating at the i32 bound), a minus sign before any positive
/// magnitude flips the sign, and a decimal point ends the number.
pub open spec fn spec_parse_int_step(acc: (int, int, bool), c: char) -> (int, int, bool) {
    let (neg, res, stopped) = acc;
    if stopped {
        acc
    } else if '0' <= c && c <= '9' {
        let r2 = res * 10 + (c as int - 48);
        (neg, if r2 > 0x7fffffff { 0x7fffffff } else { r2 }, false)
    } else if c == '-' && res <= 0 {
        (-neg, res, false)
    } else if c == '.' {
        (neg, res, true)
    } else {
        acc
    }
}

/// The accumulator after a whole string.
pub open spec fn spec_parse_int_acc(s: Seq<char>) -> (int, int, bool)
    decreases s.len(),
{
    if s.len() == 0 {
        (1, 0, false)
    } else {
        spec_parse_int_step(spec_parse_int_acc(s.drop_last()), s.last())
    }
}

/// The integer a string parses to: signed magnitude of the digits read, with
/// everything after a decimal point discarded, other characters ignored, and
/// the magnitude saturating at the i32 bound.
pub open spec fn spec_parse_int(s: Seq<char>) -> int {
    let (neg, res, stopped) = spec_parse_int_acc(s);
    res * neg
}

/// Parse a decimal integer out of the string, ignoring everything that is
/// not a digit, a leading minus or a decimal point.
pub fn parse_int(s: &str) -> (r: i32)
    ensures
        r as int == spec_parse_int(s@),
{
    let n = s.unicode_len();
    let mut neg: i32 = 1;
    let mut res: i32 = 0;
    let mut stopped: bool = false;
    let mut i: usize = 0;
    proof {
        assert(s@.subrange(0, 0) =~= Seq::<char>::empty());
    }
    while i < n
        invariant
            0 <= i <= n,
            n == s@.len(),
            neg == 1 || neg == -1,
            0 <= res <= 0x7fffffff,
            spec_parse_int_acc(s@.subrange(0, i as int)) == (neg as int, res as int, stopped),
        decreases n - i,
    {
        let ghost pre = s@.subrange(0, i as int);
        let c = s.get_char(i);
        if !stopped {
            if '0' <= c && c <= '9' {
                let ghost old_res = res as int;
                let d: i32 = (c as u32 as i32) - 48;
                if res > 214748364 || (res == 214748364 && d > 7) {
                    res = 0x7fffffff;
                } else {
                    res = res * 10 + d;
                }
                proof {
                    assert(res as int == (if old_res * 10 + (c as int - 48) > 0x7fffffff {
                        0x7fffffffint
                    } else {
                        old_res * 10 + (c as int - 48)
                    })) by (nonlinear_arith)
                        requires
                            0 <= old_res <= 0x7fffffff,
                            0 <= c as int - 48 <= 9,
                            res as int == (if old_res > 214748364 || (old_res == 214748364
                                && c as int - 48 > 7) {
                                0x7fffffffint
                            } else {
                                old_res * 10 + (c as int - 48)
                            }),
                    ;
                }
            } else if c == '-' && res <= 0 {
                neg = -neg;
            } else if c == '.' {
                stopped = true;
            }
        }
        i += 1;
        proof {
            assert(s@.subrange(0, i as int).drop_last() =~= pre);
            assert(s@.subrange(0, i as int).last() == c);
        }
    }
    proof {
        assert(s@.subrange(0, n as int) =~= s@);
    }
    let r: i32 = if neg >= 0 {
        res
    } else {
        -res
    };
    proof {
        assert(r as int == res as int * neg as int) by (nonlinear_arith)
            requires
                neg as int == 1 || neg as int == -1,
                r as int == (if neg as int >= 0 {
                    res as int
                } else {
                    -(res as int)
                }),
        ;
    }
    r
}


/// The comment-removal state after one character: outside an enclosed run,
/// characters are kept and an opener starts a run; inside one, characters
/// are dropped until the closer.
pub open spec fn spec_remove_enclosed_step(
    acc: (Seq<char>, bool),
    ch: char,
    opening: char,
    closing: char,
) -> (Seq<char>, bool) {
    let (out, inside) = acc;
    if inside {
        if ch == closing {
            (out, false)
        } else {
            (out, true)
        }
    } else {
        if ch == opening {
            (out, true)
        } else {
            (out.push(ch), false)
        }
    }
}

/// The comment-removal state after a whole string.
pub open spec fn spec_remove_enclosed_acc(s: Seq<char>, opening: char, closing: char) -> (
    Seq<char>,
    bool,
)
    decreases s.len(),
{
    if s.len() == 0 {
        (Seq::empty(), false)
    } else {
        spec_remove_enclosed_step(
            spec_remove_enclosed_acc(s.drop_last(), opening, closing),
            s.last(),
            opening,
            closing,
        )
    }
}

/// The string with every run from `opening` to `closing` removed; an
/// unclosed run is dropped to the end.
pub open spec fn spec_remove_enclosed(s: Seq<char>, opening: char, closing: char) -> Seq<char> {
    spec_remove_enclosed_acc(s, opening, closing).0
}

/// Remove every run of characters from `opening` through `closing`.
pub fn remove_enclosed(s: &str, opening: char, closing: char) -> (res: String)
    ensures
        res@ == spec_remove_enclosed(s@, opening, closing),
{
    let n = s.unicode_len();
    let mut res = String::new();
    let mut inside: bool = false;
    let mut i: usize = 0;
    proof {
        assert(s@.subrange(0, 0) =~= Seq::<char>::empty());
    }
    while i < n
        invariant
            0 <= i <= n,
            n == s@.len(),
            spec_remove_enclosed_acc(s@.subrange(0, i as int), opening, closing) == (res@, inside),
        decreases n - i,
    {
        let ghost pre = s@.subrange(0, i as int);
        let c = s.get_char(i);
        if inside {
            if c == closing {
                inside = false;
            }
        } else {
            if c == opening {
                inside = true;
            } else {
                push_char(&mut res, c);
            }
        }
        i += 1;
        proof {
            assert(s@.subrange(0, i as int).drop_last() =~= pre);
            assert(s@.subrange(0, i as int).last() == c);
        }
    }
    proof {
        assert(s@.subrange(0, n as int) =~= s@);
    }
    res
}

/// The first index of `c` at or after `from`, or `-1`.
pub open spec fn spec_find_idx(s: Seq<char>, from: int, c: char) -> int
    decreases s.len() - from,
{
    if from < 0 || from >= s.len() {
        -1
    } else if s[from] == c {
        from
    } else {
        spec_find_idx(s, from + 1, c)
    }
}

/// Find the first occurrence of `c` at or after `from`.
fn find_char(s: &str, from: usize, c: char) -> (r: Option<usize>)
    requires
        from <= s@.len(),
    ensures
        match r {
            Option::Some(j) => from <= j < s@.len() && spec_find_idx(s@, from as int, c) == j as int,
            Option::None => spec_find_idx(s@, from as int, c) == -1,
        },
{
    let n = s.unicode_len();
    let mut i: usize = from;
    while i < n
        invariant
            from <= i <= n,
            n == s@.len(),
            spec_find_idx(s@, from as int, c) == spec_find_idx(s@, i as int, c),
        decreases n - i,
    {
        let ch = s.get_char(i);
        if ch == c {
            return Option::Some(i);
        }
        i += 1;
    }
    Option::None
}

/// The list of integers parsed from the comma-separated pieces of the
/// string.
pub open spec fn spec_parse_int_list(s: Seq<char>) -> Seq<int>
    decreases s.len(),
{
    let j = spec_find_idx(s, 0, ',');
    if j < 0 || j >= s.len() {
        seq![spec_parse_int(s)]
    } else {
        seq![spec_parse_int(s.subrange(0, j))] + spec_parse_int_list(
            s.subrange(j + 1, s.len() as int),
        )
    }
}

/// Parse a comma-separated list of integers.
pub fn parse_int_list(list: &str) -> (res: Vec<i32>)
    ensures
        res@.len() == spec_parse_int_list(list@).len(),
        forall|i: int|
            0 <= i < res@.len() ==> res@[i] as int == spec_parse_int_list(list@)[i],
    decreases list@.len(),
{
    match find_char(list, 0, ',') {
        Option::None => {
            let v = parse_int(list);
            let mut res: Vec<i32> = Vec::new();
            res.push(v);
            res
        },
        Option::Some(j) => {
            let n = list.unicode_len();
            let first = list.substring_char(0, j);
            let rest = list.substring_char(j + 1, n);
            let v = parse_int(first);
            let mut res: Vec<i32> = Vec::new();
            res.push(v);
            let mut tail = parse_int_list(rest);
            res.append(&mut tail);
            res
        },
    }
}

/// The decimal digit character for a value below ten.
pub open spec fn spec_digit_char(d: int) -> char {
    ((48 + d) as u8) as char
}

/// The decimal digits of a nonnegative number, most significant first.
pub open spec fn spec_digits(n: int) -> Seq<char>
    decreases n,
{
    if n < 10 {
        seq![spec_digit_char(if n >= 0 {
            n
        } else {
            0
        })]
    } else {
        spec_digits(n / 10).push(spec_digit_char(n % 10))
    }
}

/// The decimal rendering of an integer.
pub open spec fn spec_int_string(v: int) -> Seq<char> {
    if v < 0 {
        seq!['-'] + spec_digits(-v)
    } else {
        spec_digits(v)
    }
}

/// Append the decimal digits of `n`.
fn push_digits(s: &mut String, n: u64)
    ensures
        final(s)@ == old(s)@ + spec_digits(n as int),
    decreases n,
{
    if n >= 10 {
        push_digits(s, n / 10);
        let d: u8 = (n % 10) as u8;
        push_char(s, (48 + d) as char);
    } else {
        let d: u8 = n as u8;
        push_char(s, (48 + d) as char);
    }
}

/// Append the decimal rendering of `v`.
fn push_int(s: &mut String, v: i32)
    ensures
        final(s)@ == old(s)@ + spec_int_string(v as int),
{
    if v < 0 {
        push_char(s, '-');
        let m: u64 = if v == -2147483648 {
            2147483648u64
        } else {
            (-v) as u64
        };
        push_digits(s, m);
    } else {
        push_digits(s, v as u64);
    }
}

/// The rendering of a list: elements separated by a comma and a space.
pub open spec fn spec_array_string(a: Seq<int>) -> Seq<char>
    decreases a.len(),
{
    if a.len() == 0 {
        Seq::empty()
    } else if a.len() == 1 {
        spec_int_string(a[0])
    } else {
        spec_array_string(a.drop_last()) + seq![',', ' '] + spec_int_string(a.last())
    }
}

/// Render a list of integers separated by `", "`.
pub fn array_to_string(a: &[i32]) -> (s: String)
    ensures
        s@ == spec_array_string(a@.map_values(|v: i32| v as int)),
{
    let mut s = String::new();
    if a.len() == 0 {
        return s;
    }
    push_int(&mut s, a[0]);
    let mut i: usize = 1;
    proof {
        assert(a@.map_values(|v: i32| v as int).subrange(0, 1) =~= seq![a@[0] as int]);
    }
    while i < a.len()
        invariant
            1 <= i <= a@.len(),
            s@ == spec_array_string(a@.map_values(|v: i32| v as int).subrange(0, i as int)),
        decreases a@.len() - i,
    {
        let ghost m = a@.map_values(|v: i32| v as int);
        push_char(&mut s, ',');
        push_char(&mut s, ' ');
        push_int(&mut s, a[i]);
        i += 1;
        proof {
            assert(m.subrange(0, i as int).drop_last() =~= m.subrange(0, i as int - 1));
            assert(m.subrange(0, i as int).last() == m[i as int - 1]);
            assert(s@ == spec_array_string(m.subrange(0, i as int - 1)) + seq![',', ' ']
                + spec_int_string(m[i as int - 1]));
        }
    }
    proof {
        assert(a@.map_values(|v: i32| v as int).subrange(0, a@.len() as int) =~= a@.map_values(
            |v: i32| v as int,
        ));
    }
    s
}

/// One `name = value;` line.
pub fn serialize(name: &str, val: &str) -> (s: String)
    ensures
        s@ == name@ + " = "@ + val@ + ";\n"@,
{
    let mut s = String::from_str(name);
    s.append(" = ");
    s.append(val);
    s.append(";\n");
    s
}


/// The fixed-point accumulator after one character: `(sign, value in
/// thousandths, mode)` where mode 0 reads the whole part, modes 1 to 3 read
/// the three fraction digits, and mode 4 ignores the rest. A minus sign
/// flips the sign while the value is still below a tenth; the whole part
/// saturates at the working range.
pub open spec fn spec_parse_fixed_step(acc: (int, int, int), c: char) -> (int, int, int) {
    let (neg, res, mode) = acc;
    if '0' <= c && c <= '9' {
        let d = c as int - 48;
        if mode == 0 {
            let r2 = res * 10 + d * 1000;
            (neg, if r2 > 1_000_000_000 { 1_000_000_000int } else { r2 }, 0)
        } else if mode == 1 {
            (neg, if res + d * 100 > 1_000_000_000 { 1_000_000_000int } else { res + d * 100 }, 2)
        } else if mode == 2 {
            (neg, if res + d * 10 > 1_000_000_000 { 1_000_000_000int } else { res + d * 10 }, 3)
        } else if mode == 3 {
            (neg, if res + d > 1_000_000_000 { 1_000_000_000int } else { res + d }, 4)
        } else {
            acc
        }
    } else if c == '-' && mode == 0 && res <= 100 {
        (-neg, res, 0)
    } else if c == '.' && mode == 0 {
        (neg, res, 1)
    } else {
        acc
    }
}

/// The fixed-point accumulator after a whole string.
pub open spec fn spec_parse_fixed_acc(s: Seq<char>) -> (int, int, int)
    decreases s.len(),
{
    if s.len() == 0 {
        (1, 0, 0)
    } else {
        spec_parse_fixed_step(spec_parse_fixed_acc(s.drop_last()), s.last())
    }
}

/// The fixed-point number a string parses to, in thousandths, truncated to
/// three fraction digits.
pub open spec fn spec_parse_fixed(s: Seq<char>) -> int {
    let (neg, res, mode) = spec_parse_fixed_acc(s);
    res * neg
}

/// Parse a decimal number into fixed-point thousandths.
pub fn parse_fixed(s: &str) -> (r: i64)
    ensures
        r as int == spec_parse_fixed(s@),
        -1_000_000_000 <= r <= 1_000_000_000,
{
    let n = s.unicode_len();
    let mut neg: i64 = 1;
    let mut res: i64 = 0;
    let mut mode: u8 = 0;
    let mut i: usize = 0;
    proof {
        assert(s@.subrange(0, 0) =~= Seq::<char>::empty());
    }
    while i < n
        invariant
            0 <= i <= n,
            n == s@.len(),
            neg == 1 || neg == -1,
            0 <= res <= 1_000_000_000,
            0 <= mode <= 4,
            spec_parse_fixed_acc(s@.subrange(0, i as int)) == (neg as int, res as int, mode as int),
        decreases n - i,
    {
        let ghost pre = s@.subrange(0, i as int);
        let c = s.get_char(i);
        if '0' <= c && c <= '9' {
            let d: i64 = (c as u32 as i64) - 48;
            if mode == 0 {
                let r2: i64 = res * 10 + d * 1000;
                res = if r2 > 1_000_000_000 {
                    1_000_000_000
                } else {
                    r2
                };
            } else if mode == 1 {
                let r2 = res + d * 100;
                res = if r2 > 1_000_000_000 {
                    1_000_000_000
                } else {
                    r2
                };
                mode = 2;
            } else if mode == 2 {
                let r2 = res + d * 10;
                res = if r2 > 1_000_000_000 {
                    1_000_000_000
                } else {
                    r2
                };
                mode = 3;
            } else if mode == 3 {
                let r2 = res + d;
                res = if r2 > 1_000_000_000 {
                    1_000_000_000
                } else {
                    r2
                };
                mode = 4;
            }
        } else if c == '-' && mode == 0 && res <= 100 {
            neg = -neg;
        } else if c == '.' && mode == 0 {
            mode = 1;
        }
        i += 1;
        proof {
            assert(s@.subrange(0, i as int).drop_last() =~= pre);
            assert(s@.subrange(0, i as int).last() == c);
        }
    }
    proof {
        assert(s@.subrange(0, n as int) =~= s@);
    }
    let r: i64 = if neg >= 0 {
        res
    } else {
        -res
    };
    proof {
        assert(r as int == res as int * neg as int) by (nonlinear_arith)
            requires
                neg as int == 1 || neg as int == -1,
                r as int == (if neg as int >= 0 {
                    res as int
                } else {
                    -(res as int)
                }),
        ;
    }
    r
}

/// Folding one parsed segment into the parser state: the part before the
/// first `=` has comments and whitespace removed and, if anything is left,
/// is appended to the name list (space-terminated) while the part after the
/// `=` is appended to the values.
pub open spec fn spec_add_segment(names: Seq<char>, values: Seq<Seq<char>>, seg: Seq<char>) -> (
    Seq<char>,
    Seq<Seq<char>>,
) {
    let j = spec_find_idx(seg, 0, '=');
    if j < 0 || j >= seg.len() {
        (names, values)
    } else {
        let cleaned = spec_remove_whitespace(
            spec_remove_enclosed(seg.subrange(0, j), COMMENT_START, '\n'),
        );
        if cleaned.len() == 0 {
            (names, values)
        } else {
            (names + cleaned + seq![' '], values.push(seg.subrange(j + 1, seg.len() as int)))
        }
    }
}

/// The parser state accumulated over the text: carriage returns count as
/// line breaks, `;` ends a segment.
pub open spec fn spec_parser_acc(s: Seq<char>) -> (Seq<char>, Seq<Seq<char>>, Seq<char>)
    decreases s.len(),
{
    if s.len() == 0 {
        (Seq::empty(), Seq::empty(), Seq::empty())
    } else {
        let (nm, vs, cur) = spec_parser_acc(s.drop_last());
        let ch0 = s.last();
        let ch = if ch0 == '\r' {
            '\n'
        } else {
            ch0
        };
        if ch == ';' {
            let (nm2, vs2) = spec_add_segment(nm, vs, cur);
            (nm2, vs2, Seq::empty())
        } else {
            (nm, vs, cur.push(ch))
        }
    }
}

/// The name list and value list parsed from the text (the trailing segment
/// counts).
pub open spec fn spec_parser_state(s: Seq<char>) -> (Seq<char>, Seq<Seq<char>>) {
    let (nm, vs, cur) = spec_parser_acc(s);
    spec_add_segment(nm, vs, cur)
}

/// A parsed `name = value;` file: the names, space-terminated and
/// concatenated, beside the values in matching order.
pub struct StringParser {
    pub names: String,
    pub values: Vec<String>,
}

/// Fold one segment into the growing parser.
fn add_segment(names: &mut String, values: &mut Vec<String>, seg: &str)
    ensures
        (final(names)@, final(values)@.map_values(|v: String| v@)) == spec_add_segment(
            old(names)@,
            old(values)@.map_values(|v: String| v@),
            seg@,
        ),
{
    let n = seg.unicode_len();
    match find_char(seg, 0, '=') {
        Option::None => {},
        Option::Some(j) => {
            let name_part = seg.substring_char(0, j);
            let value_part = seg.substring_char(j + 1, n);
            let cleaned = remove_whitespace(remove_enclosed(name_part, COMMENT_START, '\n').as_str());
            if cleaned.as_str().unicode_len() > 0 {
                names.append(cleaned.as_str());
                names.append(" ");
                values.push(value_part.to_owned());
                proof {
                    assert(final(values)@.map_values(|v: String| v@) =~= old(values)@.map_values(
                        |v: String| v@,
                    ).push(seg@.subrange(j + 1, seg@.len() as int)));
                    assert(" "@ =~= seq![' ']) by {
                        reveal_strlit(" ");
                    }
                }
            }
        },
    }
}

/// The value-index the name resolves to in the space-terminated name list,
/// scanning from `from` with `idx` names already passed; `-1` when absent.
pub open spec fn spec_lookup_idx(names: Seq<char>, name: Seq<char>, from: int, idx: int) -> int
    decreases names.len() - from,
{
    if from < 0 || from > names.len() {
        -1
    } else {
        let j = spec_find_idx(names, from, ' ');
        if j < from || j >= names.len() {
            if names.subrange(from, names.len() as int) == name {
                idx
            } else {
                -1
            }
        } else {
            if names.subrange(from, j) == name {
                idx
            } else {
                spec_lookup_idx(names, name, j + 1, idx + 1)
            }
        }
    }
}

impl StringParser {
    /// Parse the text into a name and value table.
    pub fn new(s: &str) -> (r: StringParser)
        ensures
            (r.names@, r.values@.map_values(|v: String| v@)) == spec_parser_state(s@),
    {
        let n = s.unicode_len();
        let mut names = String::new();
        let mut values: Vec<String> = Vec::new();
        let mut cur = String::new();
        let mut i: usize = 0;
        proof {
            assert(s@.subrange(0, 0) =~= Seq::<char>::empty());
            assert(Seq::<String>::empty().map_values(|v: String| v@) =~= Seq::<Seq<char>>::empty());
        }
        while i < n
            invariant
                0 <= i <= n,
                n == s@.len(),
                spec_parser_acc(s@.subrange(0, i as int)) == (
                    names@,
                    values@.map_values(|v: String| v@),
                    cur@,
                ),
            decreases n - i,
        {
            let ghost pre = s@.subrange(0, i as int);
            let c0 = s.get_char(i);
            let c = if c0 == '\r' {
                '\n'
            } else {
                c0
            };
            if c == ';' {
                add_segment(&mut names, &mut values, cur.as_str());
                cur = String::new();
            } else {
                push_char(&mut cur, c);
            }
            i += 1;
            proof {
                assert(s@.subrange(0, i as int).drop_last() =~= pre);
                assert(s@.subrange(0, i as int).last() == c0);
            }
        }
        proof {
            assert(s@.subrange(0, n as int) =~= s@);
        }
        add_segment(&mut names, &mut values, cur.as_str());
        StringParser { names, values }
    }

    /// Look a name up; the result is the value recorded for its first
    /// occurrence, if the name was seen.
    pub fn get_string<'a>(&'a self, name: &str) -> (r: Option<&'a String>)
        ensures
            ({
                let k = spec_lookup_idx(self.names@, name@, 0, 0);
                match r {
                    Option::Some(v) => 0 <= k < self.values@.len() && v@ == self.values@[k]@,
                    Option::None => k < 0 || k >= self.values@.len(),
                }
            }),
    {
        let n = self.names.as_str().unicode_len();
        let mut p: usize = 0;
        let mut idx: usize = 0;
        loop
            invariant
                0 <= p <= n,
                n == self.names@.len(),
                idx <= p,
                spec_lookup_idx(self.names@, name@, 0, 0) == spec_lookup_idx(
                    self.names@,
                    name@,
                    p as int,
                    idx as int,
                ),
            decreases n - p,
        {
            let found = find_char(self.names.as_str(), p, ' ');
            let (seg, j_end): (&str, usize) = match found {
                Option::Some(j) => (self.names.as_str().substring_char(p, j), j),
                Option::None => (self.names.as_str().substring_char(p, n), n),
            };
            let seg_string = seg.to_owned();
            let name_string = name.to_owned();
            if seg_string == name_string {
                if idx < self.values.len() {
                    return Option::Some(&self.values[idx]);
                } else {
                    return Option::None;
                }
            }
            match found {
                Option::Some(j) => {
                    let ghost prev_p = p as int;
                    let ghost prev_idx = idx as int;
                    p = j + 1;
                    idx = idx + 1;
                    proof {
                        assert(spec_lookup_idx(self.names@, name@, prev_p, prev_idx)
                            == spec_lookup_idx(self.names@, name@, p as int, idx as int));
                    }
                },
                Option::None => {
                    return Option::None;
                },
            }
        }
    }

    /// The value for the name, parsed as a comma-separated integer list, or
    /// empty when absent.
    pub fn get_as_ints(&self, name: &str) -> (res: Vec<i32>)
        ensures
            ({
                let k = spec_lookup_idx(self.names@, name@, 0, 0);
                if 0 <= k < self.values@.len() {
                    res@.len() == spec_parse_int_list(self.values@[k]@).len() && forall|i: int|
                        0 <= i < res@.len() ==> res@[i] as int == spec_parse_int_list(
                            self.values@[k]@,
                        )[i]
                } else {
                    res@.len() == 0
                }
            }),
    {
        match self.get_string(name) {
            Option::Some(v) => parse_int_list(v.as_str()),
            Option::None => Vec::new(),
        }
    }

    /// The value for the name as it stands, or the default when absent.
    pub fn get_as_string_literal_or_def(&self, name: &str, def: &str) -> (res: String)
        ensures
            ({
                let k = spec_lookup_idx(self.names@, name@, 0, 0);
                if 0 <= k < self.values@.len() {
                    res@ == self.values@[k]@
                } else {
                    res@ == def@
                }
            }),
    {
        match self.get_string(name) {
            Option::Some(v) => v.clone(),
            Option::None => String::from_str(def),
        }
    }

    /// The value's first comma-separated field, parsed as an integer, or the
    /// default when the name is absent.
    pub fn get_int_or_def(&self, name: &str, def: i32) -> (r: i32)
        ensures
            ({
                let k = spec_lookup_idx(self.names@, name@, 0, 0);
                if 0 <= k < self.values@.len() {
                    r as int == spec_parse_int(spec_first_field(self.values@[k]@))
                } else {
                    r == def
                }
            }),
    {
        match self.get_string(name) {
            Option::Some(v) => {
                let n = v.as_str().unicode_len();
                match find_char(v.as_str(), 0, ',') {
                    Option::Some(j) => parse_int(v.as_str().substring_char(0, j)),
                    Option::None => parse_int(v.as_str()),
                }
            },
            Option::None => def,
        }
    }

    /// The value's first comma-separated field, parsed as fixed-point
    /// thousandths, or the default when the name is absent.
    pub fn get_fixed_or_def(&self, name: &str, def: i64) -> (r: i64)
        requires
            -1_000_000_000 <= def <= 1_000_000_000,
        ensures
            ({
                let k = spec_lookup_idx(self.names@, name@, 0, 0);
                if 0 <= k < self.values@.len() {
                    r as int == spec_parse_fixed(spec_first_field(self.values@[k]@))
                } else {
                    r == def
                }
            }),
            -1_000_000_000 <= r <= 1_000_000_000,
    {
        match self.get_string(name) {
            Option::Some(v) => {
                let n = v.as_str().unicode_len();
                match find_char(v.as_str(), 0, ',') {
                    Option::Some(j) => parse_fixed(v.as_str().substring_char(0, j)),
                    Option::None => parse_fixed(v.as_str()),
                }
            },
            Option::None => def,
        }
    }

    /// The value's first comma-separated field, or the default when the name
    /// is absent.
    pub fn get_string_or_def(&self, name: &str, def: String) -> (res: String)
        ensures
            ({
                let k = spec_lookup_idx(self.names@, name@, 0, 0);
                if 0 <= k < self.values@.len() {
                    res@ == spec_first_field(self.values@[k]@)
                } else {
                    res@ == def@
                }
            }),
    {
        match self.get_string(name) {
            Option::Some(v) => {
                let n = v.as_str().unicode_len();
                match find_char(v.as_str(), 0, ',') {
                    Option::Some(j) => v.as_str().substring_char(0, j).to_owned(),
                    Option::None => v.as_str().substring_char(0, n).to_owned(),
                }
            },
            Option::None => def,
        }
    }

    /// The value split at commas, each piece stripped of whitespace, or
    /// empty when the name is absent.
    pub fn get_as_strings(&self, name: &str) -> (res: Vec<String>)
        ensures
            ({
                let k = spec_lookup_idx(self.names@, name@, 0, 0);
                if 0 <= k < self.values@.len() {
                    res@.len() == spec_split_clean(self.values@[k]@).len() && forall|i: int|
                        0 <= i < res@.len() ==> res@[i]@ == spec_split_clean(self.values@[k]@)[i]
                } else {
                    res@.len() == 0
                }
            }),
    {
        match self.get_string(name) {
            Option::Some(v) => split_clean(v.as_str()),
            Option::None => Vec::new(),
        }
    }
}

/// The part of the string before its first comma (all of it when there is
/// none).
pub open spec fn spec_first_field(v: Seq<char>) -> Seq<char> {
    let j = spec_find_idx(v, 0, ',');
    if j < 0 || j >= v.len() {
        v
    } else {
        v.subrange(0, j)
    }
}

/// The comma-separated pieces of the string, each stripped of whitespace.
pub open spec fn spec_split_clean(v: Seq<char>) -> Seq<Seq<char>>
    decreases v.len(),
{
    let j = spec_find_idx(v, 0, ',');
    if j < 0 || j >= v.len() {
        seq![spec_remove_whitespace(v)]
    } else {
        seq![spec_remove_whitespace(v.subrange(0, j))] + spec_split_clean(
            v.subrange(j + 1, v.len() as int),
        )
    }
}

/// Split at commas and strip whitespace from each piece.
fn split_clean(v: &str) -> (res: Vec<String>)
    ensures
        res@.len() == spec_split_clean(v@).len(),
        forall|i: int| 0 <= i < res@.len() ==> res@[i]@ == spec_split_clean(v@)[i],
    decreases v@.len(),
{
    let n = v.unicode_len();
    match find_char(v, 0, ',') {
        Option::None => {
            let mut res: Vec<String> = Vec::new();
            res.push(remove_whitespace(v));
            res
        },
        Option::Some(j) => {
            let first = v.substring_char(0, j);
            let rest = v.substring_char(j + 1, n);
            let mut res: Vec<String> = Vec::new();
            res.push(remove_whitespace(first));
            let mut tail = split_clean(rest);
            res.append(&mut tail);
            res
        },
    }
}

} // verus!
