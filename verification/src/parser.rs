//! Decoding of the two literal forms that the lexer hands over still
//! encoded: quoted string literals with backslash escapes, and raw
//! block literals delimited by `---` markers.
//!
//! The decoders are specified by spec functions that walk the literal
//! character by character; the executable functions are proved to
//! return exactly the decoded sequence.

use vstd::prelude::*;

verus! {

/// An error from decoding a quoted string literal.
#[derive(Clone, Copy, Debug, PartialEq, Eq, Structural)]
pub enum DecodeError {
    /// A backslash escape other than `\\`, `\"`, `\n` or `\u`.
    InvalidEscape(char),
    /// A `\u` escape whose value is outside the Unicode scalar range.
    InvalidCodepoint(u32),
}

/// The state of the escape decoder between two characters.
#[derive(Clone, Copy, Debug, PartialEq, Eq, Structural)]
pub enum EscState {
    /// Outside of any escape sequence.
    Normal,
    /// Directly after a backslash.
    Escape,
    /// Inside a `\u` escape: the value so far and the digits left.
    Unicode(u32, u32),
}

/// Whether `u` is a Unicode scalar value, so a valid `char`.
pub open spec fn is_unicode_scalar(u: u32) -> bool {
    u < 0xD800 || (0xE000 <= u && u <= 0x10FFFF)
}

/// Whether `c` is a hexadecimal digit.
pub open spec fn is_hex_digit(c: char) -> bool {
    let u = c as u32;
    (0x30 <= u && u <= 0x39) || (0x41 <= u && u <= 0x46) || (0x61 <= u && u <= 0x66)
}

/// The value of the hexadecimal digit `c`.
pub open spec fn hex_val(c: char) -> u32 {
    let u = c as u32;
    if 0x30 <= u && u <= 0x39 {
        (u - 0x30) as u32
    } else if 0x41 <= u && u <= 0x46 {
        (u - 0x37) as u32
    } else {
        (u - 0x57) as u32
    }
}

/// Prepends `p` to the sequence inside an `Ok` result.
pub open spec fn prepend_decoded(p: Seq<char>, r: Result<Seq<char>, DecodeError>) -> Result<
    Seq<char>,
    DecodeError,
> {
    match r {
        Ok(t) => Ok(p + t),
        Err(e) => Err(e),
    }
}

/// The characters that decoding `s[i..end]` in state `st` appends, or
/// the first decode error.
///
/// A `\u` escape consumes hexadecimal digits until the first non-hex
/// character or until six digits were read, whichever comes first; the
/// accumulated value must be a Unicode scalar. At the end of the input
/// a pending `\u` escape still yields its character; a pending bare
/// backslash is dropped.
pub open spec fn decode_from(
    s: Seq<char>,
    i: int,
    end: int,
    st: EscState,
) -> Result<Seq<char>, DecodeError>
    decreases end - i,
{
    if i < 0 || end > s.len() || i >= end {
        match st {
            EscState::Unicode(cp, left) => if is_unicode_scalar(cp) {
                Ok(seq![cp as char])
            } else {
                Err(DecodeError::InvalidCodepoint(cp))
            },
            _ => Ok(Seq::<char>::empty()),
        }
    } else {
        let c = s[i];
        match st {
            EscState::Normal => if c == '\\' {
                decode_from(s, i + 1, end, EscState::Escape)
            } else {
                prepend_decoded(seq![c], decode_from(s, i + 1, end, EscState::Normal))
            },
            EscState::Escape => if c == '\\' || c == '"' {
                prepend_decoded(seq![c], decode_from(s, i + 1, end, EscState::Normal))
            } else if c == 'n' {
                prepend_decoded(seq!['\n'], decode_from(s, i + 1, end, EscState::Normal))
            } else if c == 'u' {
                decode_from(s, i + 1, end, EscState::Unicode(0, 6))
            } else {
                Err(DecodeError::InvalidEscape(c))
            },
            EscState::Unicode(cp, left) => if is_hex_digit(c) && left > 0 {
                decode_from(
                    s,
                    i + 1,
                    end,
                    EscState::Unicode((16 * cp + hex_val(c)) as u32, (left - 1) as u32),
                )
            } else if is_unicode_scalar(cp) {
                prepend_decoded(
                    seq![cp as char, c],
                    decode_from(s, i + 1, end, EscState::Normal),
                )
            } else {
                Err(DecodeError::InvalidCodepoint(cp))
            },
        }
    }
}

/// The string a quoted literal `s` (quotes included) represents, or the
/// first decode error.
pub open spec fn decoded_string_literal(s: Seq<char>) -> Result<Seq<char>, DecodeError> {
    decode_from(s, 1, s.len() - 1, EscState::Normal)
}

/// The first index of a newline in `s[from..end]`, or `end` if there
/// is none.
pub open spec fn first_nl(s: Seq<char>, from: int, end: int) -> int
    decreases end - from,
{
    if from >= end {
        end
    } else if s[from] == '\n' {
        from
    } else {
        first_nl(s, from + 1, end)
    }
}

/// The last index of a newline in `s[from..end]`, or `-1` if there is
/// none.
pub open spec fn last_nl(s: Seq<char>, from: int, end: int) -> int
    decreases end - from,
{
    if end <= from {
        -1
    } else if s[end - 1] == '\n' {
        end - 1
    } else {
        last_nl(s, from, end - 1)
    }
}

proof fn lemma_first_nl_bounds(s: Seq<char>, from: int, end: int)
    requires
        from <= end,
    ensures
        from <= first_nl(s, from, end) <= end,
    decreases end - from,
{
    if from < end && s[from] != '\n' {
        lemma_first_nl_bounds(s, from + 1, end);
    }
}

/// Whether `s[a..b]` consists of spaces only.
pub open spec fn all_spaces(s: Seq<char>, a: int, b: int) -> bool {
    forall|k: int| a <= k < b ==> s[k] == ' '
}

/// The last newline between the `---` markers of the raw literal `s`:
/// everything after it is the indentation of the closing marker.
pub open spec fn raw_last_nl(s: Seq<char>) -> int {
    last_nl(s, 3, s.len() - 3)
}

/// The indentation width of the raw literal `s`: the width of the
/// whitespace before the closing `---` marker.
pub open spec fn raw_indent(s: Seq<char>) -> int {
    s.len() - 3 - raw_last_nl(s) - 1
}

/// Whether every line of `s[pos..end]` can have `indent` leading
/// spaces stripped: each non-blank line starts with `indent` spaces
/// and extends past them; blank lines are exempt; the final line
/// starts with `indent` spaces and is at least that long.
pub open spec fn lines_strippable(s: Seq<char>, pos: int, end: int, indent: int) -> bool
    decreases end - pos,
    via lines_strippable_dec
{
    let j = first_nl(s, pos, end);
    if j == end {
        indent <= end - pos && all_spaces(s, pos, pos + indent)
    } else if j == pos {
        lines_strippable(s, pos + 1, end, indent)
    } else {
        j - pos > indent && all_spaces(s, pos, pos + indent) && lines_strippable(
            s,
            j + 1,
            end,
            indent,
        )
    }
}

/// The lines of `s[pos..end]`, each non-blank one with its first
/// `indent` characters stripped, blank lines kept verbatim.
pub open spec fn stripped_lines(s: Seq<char>, pos: int, end: int, indent: int) -> Seq<char>
    decreases end - pos,
    via stripped_lines_dec
{
    let j = first_nl(s, pos, end);
    if j == end {
        s.subrange(pos + indent, end)
    } else if j == pos {
        seq!['\n'] + stripped_lines(s, pos + 1, end, indent)
    } else {
        s.subrange(pos + indent, j + 1) + stripped_lines(s, j + 1, end, indent)
    }
}

#[via_fn]
proof fn lines_strippable_dec(s: Seq<char>, pos: int, end: int, indent: int) {
    if pos <= end {
        lemma_first_nl_bounds(s, pos, end);
    }
}

#[via_fn]
proof fn stripped_lines_dec(s: Seq<char>, pos: int, end: int, indent: int) {
    if pos <= end {
        lemma_first_nl_bounds(s, pos, end);
    }
}

/// Whether the raw literal `s` is well formed: it carries its two
/// `---` markers, a newline follows the opening marker, some newline
/// precedes the closing marker's indentation, and every interior line
/// can have that indentation stripped.
pub open spec fn raw_literal_well_formed(s: Seq<char>) -> bool {
    &&& s.len() >= 6
    &&& raw_last_nl(s) >= 3
    &&& s[3] == '\n'
    &&& lines_strippable(s, 4, raw_last_nl(s), raw_indent(s))
}

/// The string a well-formed raw literal `s` represents: its interior
/// lines, the closing marker's indentation stripped from each.
pub open spec fn decoded_raw_literal(s: Seq<char>) -> Seq<char> {
    stripped_lines(s, 4, raw_last_nl(s), raw_indent(s))
}

/// Sixteen to the `k`th power.
pub open spec fn pow16(k: nat) -> int
    decreases k,
{
    if k == 0 {
        1
    } else {
        16 * pow16((k - 1) as nat)
    }
}

proof fn lemma_pow16_pos(k: nat)
    ensures
        pow16(k) >= 1,
    decreases k,
{
    if k > 0 {
        lemma_pow16_pos((k - 1) as nat);
    }
}

proof fn lemma_pow16_le(a: nat, b: nat)
    requires
        a <= b,
    ensures
        pow16(a) <= pow16(b),
    decreases b,
{
    if a < b {
        lemma_pow16_le(a, (b - 1) as nat);
        lemma_pow16_pos((b - 1) as nat);
    }
}

proof fn lemma_prepend_prepend(a: Seq<char>, b: Seq<char>, r: Result<Seq<char>, DecodeError>)
    ensures
        prepend_decoded(a, prepend_decoded(b, r)) == prepend_decoded(a + b, r),
{
    match r {
        Ok(t) => {
            assert(a + (b + t) =~= (a + b) + t);
        },
        Err(_) => {},
    }
}

/// The bound the decoder maintains on a pending `\u` value: with
/// `left` digits to go, at most `6 - left` digits were consumed.
pub open spec fn esc_state_bounded(st: EscState) -> bool {
    match st {
        EscState::Unicode(cp, left) => left <= 6 && (cp as int) < pow16((6 - left) as nat),
        _ => true,
    }
}

/// Relies on core's `char::from_u32`: it returns the `char` with
/// scalar value `i`, and `None` exactly when `i` is a surrogate or
/// above `0x10FFFF`.
pub assume_specification[ char::from_u32 ](i: u32) -> (r: Option<char>)
    ensures
        r is Some <==> is_unicode_scalar(i),
        r matches Some(c) ==> c as u32 == i,
;

/// Turns a codepoint into the character it denotes, or reports a value
/// outside the Unicode scalar range.
pub fn char_from_codepoint(codepoint: u32) -> (r: Result<char, DecodeError>)
    ensures
        match r {
            Ok(c) => is_unicode_scalar(codepoint) && c == codepoint as char,
            Err(e) => !is_unicode_scalar(codepoint) && e == DecodeError::InvalidCodepoint(
                codepoint,
            ),
        },
{
    match char::from_u32(codepoint) {
        Some(c) => {
            proof {
                vstd::utf8::char_u32_cast(c, codepoint);
            }
            Ok(c)
        },
        None => Err(DecodeError::InvalidCodepoint(codepoint)),
    }
}

/// The value of the hexadecimal digit `c`, or `None` if `c` is no
/// hexadecimal digit.
fn hex_digit_value(c: char) -> (r: Option<u32>)
    ensures
        r matches Some(v) ==> is_hex_digit(c) && v == hex_val(c),
        r is None ==> !is_hex_digit(c),
{
    let u = c as u32;
    if 0x30 <= u && u <= 0x39 {
        Some(u - 0x30)
    } else if 0x41 <= u && u <= 0x46 {
        Some(u - 0x37)
    } else if 0x61 <= u && u <= 0x66 {
        Some(u - 0x57)
    } else {
        None
    }
}

/// Relies on std's `FromIterator<char> for String`: collecting
/// characters builds the string of exactly those characters in order.
#[verifier::external_body]
fn string_from_chars(v: &Vec<char>) -> (s: String)
    ensures
        s@ == v@,
{
    v.iter().collect()
}

/// Turns a quoted string literal into the string it represents.
///
/// For example, `"foo\"bar"` becomes `foo"bar`. The enclosing quotes
/// are stripped and the escapes `\\`, `\"`, `\n` and `\u` followed by
/// up to six hexadecimal digits are decoded; any other escape, and any
/// `\u` value outside the Unicode scalar range, is an error.
pub fn unescape_string_literal(s: &str) -> (r: Result<String, DecodeError>)
    requires
        s@.len() >= 2,
    ensures
        match r {
            Ok(out) => decoded_string_literal(s@) == Ok::<Seq<char>, DecodeError>(out@),
            Err(e) => decoded_string_literal(s@) == Err::<Seq<char>, DecodeError>(e),
        },
{
    let n: usize = s.unicode_len();
    let end: usize = n - 1;
    let mut out: Vec<char> = Vec::new();
    let mut st: EscState = EscState::Normal;
    let mut i: usize = 1;

    while i < end
        invariant
            2 <= n,
            n == s@.len(),
            end == n - 1,
            1 <= i <= end,
            esc_state_bounded(st),
            decode_from(s@, 1, end as int, EscState::Normal) == prepend_decoded(
                out@,
                decode_from(s@, i as int, end as int, st),
            ),
        decreases end - i,
    {
        let c = s.get_char(i);
        let ghost st0 = st;
        let ghost out0 = out@;
        match st {
            EscState::Normal => {
                if c == '\\' {
                    st = EscState::Escape;
                } else {
                    out.push(c);
                    proof {
                        assert(out@ =~= out0 + seq![c]);
                        lemma_prepend_prepend(
                            out0,
                            seq![c],
                            decode_from(s@, i + 1, end as int, st),
                        );
                    }
                }
            },
            EscState::Escape => {
                if c == '\\' || c == '"' {
                    out.push(c);
                    st = EscState::Normal;
                    proof {
                        assert(out@ =~= out0 + seq![c]);
                        lemma_prepend_prepend(
                            out0,
                            seq![c],
                            decode_from(s@, i + 1, end as int, st),
                        );
                    }
                } else if c == 'n' {
                    out.push('\n');
                    st = EscState::Normal;
                    proof {
                        assert(out@ =~= out0 + seq!['\n']);
                        lemma_prepend_prepend(
                            out0,
                            seq!['\n'],
                            decode_from(s@, i + 1, end as int, st),
                        );
                    }
                } else if c == 'u' {
                    st = EscState::Unicode(0, 6);
                } else {
                    return Err(DecodeError::InvalidEscape(c));
                }
            },
            EscState::Unicode(cp, left) => {
                let d = hex_digit_value(c);
                match d {
                    Some(v) if left > 0 => {
                        proof {
                            lemma_pow16_le((6 - left) as nat, 5);
                            reveal_with_fuel(pow16, 7);
                        }
                        st = EscState::Unicode(16 * cp + v, left - 1);
                    },
                    _ => {
                        match char_from_codepoint(cp) {
                            Ok(ch) => {
                                out.push(ch);
                                out.push(c);
                                st = EscState::Normal;
                                proof {
                                    assert(out@ =~= out0 + seq![ch, c]);
                                    lemma_prepend_prepend(
                                        out0,
                                        seq![ch, c],
                                        decode_from(s@, i + 1, end as int, st),
                                    );
                                }
                            },
                            Err(e) => {
                                return Err(e);
                            },
                        }
                    },
                }
            },
        }
        i = i + 1;
    }

    match st {
        EscState::Unicode(cp, _left) => {
            match char_from_codepoint(cp) {
                Ok(ch) => {
                    let ghost out0 = out@;
                    out.push(ch);
                    proof {
                        assert(out@ =~= out0 + seq![ch]);
                    }
                },
                Err(e) => {
                    return Err(e);
                },
            }
        },
        _ => {
            proof {
                assert(out@ + Seq::<char>::empty() =~= out@);
            }
        },
    }

    Ok(string_from_chars(&out))
}

/// The first index of a newline in `s[from..end]`, or `end` if there
/// is none.
fn find_newline(s: &str, from: usize, end: usize) -> (j: usize)
    requires
        from <= end <= s@.len(),
    ensures
        j == first_nl(s@, from as int, end as int),
        from <= j <= end,
        j < end ==> s@[j as int] == '\n',
{
    let mut i: usize = from;
    while i < end
        invariant
            from <= i <= end <= s@.len(),
            first_nl(s@, from as int, end as int) == first_nl(s@, i as int, end as int),
        decreases end - i,
    {
        if s.get_char(i) == '\n' {
            return i;
        }
        i = i + 1;
    }
    end
}

/// The last index of a newline in `s[from..end]`, or `None` if there
/// is none.
fn rfind_newline(s: &str, from: usize, end: usize) -> (r: Option<usize>)
    requires
        from <= end <= s@.len(),
    ensures
        match r {
            Some(j) => j == last_nl(s@, from as int, end as int) && from <= j < end,
            None => last_nl(s@, from as int, end as int) == -1,
        },
{
    let mut i: usize = end;
    while i > from
        invariant
            from <= i <= end <= s@.len(),
            last_nl(s@, from as int, end as int) == last_nl(s@, from as int, i as int),
        decreases i,
    {
        if s.get_char(i - 1) == '\n' {
            return Some(i - 1);
        }
        i = i - 1;
    }
    None
}

/// Strips the `---` markers of a raw string literal and corrects its
/// indentation: the indentation of the closing marker's line is
/// removed from every non-blank interior line, blank interior lines
/// pass through verbatim, and the newlines adjacent to the two
/// markers are dropped.
pub fn unescape_raw_string_literal(literal: &str) -> (r: String)
    requires
        raw_literal_well_formed(literal@),
    ensures
        r@ == decoded_raw_literal(literal@),
{
    let n: usize = literal.unicode_len();
    let last: usize = match rfind_newline(literal, 3, n - 3) {
        Some(l) => l,
        None => {
            proof {
                assert(false);
            }
            0
        },
    };
    let end: usize = last;
    let indent: usize = (n - 3) - last - 1;
    let mut out = String::new();
    let mut pos: usize = 4;

    loop
        invariant_except_break
            decoded_raw_literal(literal@) == out@ + stripped_lines(
                literal@,
                pos as int,
                end as int,
                indent as int,
            ),
        invariant
            n == literal@.len(),
            end == raw_last_nl(literal@),
            indent == raw_indent(literal@),
            4 <= pos <= end <= n - 3,
            lines_strippable(literal@, pos as int, end as int, indent as int),
        ensures
            out@ == decoded_raw_literal(literal@),
        decreases end - pos,
    {
        let ghost out0 = out@;
        let j = find_newline(literal, pos, end);
        if j == end {
            out.append(literal.substring_char(pos + indent, end));
            proof {
                assert(out@ =~= out0 + stripped_lines(
                    literal@,
                    pos as int,
                    end as int,
                    indent as int,
                ));
            }
            break ;
        } else if j == pos {
            out.append("\n");
            proof {
                reveal_strlit("\n");
                assert("\n"@ =~= seq!['\n']);
                assert(out@ + stripped_lines(literal@, pos + 1, end as int, indent as int)
                    =~= out0 + stripped_lines(literal@, pos as int, end as int, indent as int));
            }
            pos = pos + 1;
        } else {
            out.append(literal.substring_char(pos + indent, j + 1));
            proof {
                assert(out@ + stripped_lines(literal@, j + 1, end as int, indent as int)
                    =~= out0 + stripped_lines(literal@, pos as int, end as int, indent as int));
            }
            pos = j + 1;
        }
    }

    out
}

} // verus!
