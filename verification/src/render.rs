//! Text renderings of raw key buffers and field values.
//!
//! A key buffer can be shown as a decimal byte list, as hexadecimal byte
//! lists in several spellings, or compactly as one hex string with an
//! underscore between the byte groups of consecutive fields.  Every
//! rendering is specified character by character and the builders are
//! proved against those specifications.

use vstd::prelude::*;

verus! {

/// The output format of a raw key buffer in diagnostics.
#[derive(Copy, Clone, Debug, PartialEq, Eq, Structural)]
pub enum RawDebugFormat {
    /// One hex string with the bytes of consecutive fields separated by
    /// underscores.
    Compact,
    /// A decimal byte list, the way a byte array ordinarily prints.
    Standard,
    /// A byte list in bare lowercase hexadecimal.
    LowerHex,
    /// A byte list in bare uppercase hexadecimal.
    UpperHex,
    /// A byte list in `0x`-prefixed two-digit lowercase hexadecimal.
    PrettyLowerHex,
    /// A byte list in `0x`-prefixed two-digit uppercase hexadecimal.
    PrettyUpperHex,
}

impl Default for RawDebugFormat {
    /// The compact rendering is the default.
    fn default() -> (r: RawDebugFormat)
        ensures
            r == RawDebugFormat::Compact,
    {
        RawDebugFormat::Compact
    }
}

/// The digit characters, uppercase for the hex range.
pub open spec fn digit_char(n: int) -> char {
    if n == 0 {
        '0'
    } else if n == 1 {
        '1'
    } else if n == 2 {
        '2'
    } else if n == 3 {
        '3'
    } else if n == 4 {
        '4'
    } else if n == 5 {
        '5'
    } else if n == 6 {
        '6'
    } else if n == 7 {
        '7'
    } else if n == 8 {
        '8'
    } else if n == 9 {
        '9'
    } else if n == 10 {
        'A'
    } else if n == 11 {
        'B'
    } else if n == 12 {
        'C'
    } else if n == 13 {
        'D'
    } else if n == 14 {
        'E'
    } else {
        'F'
    }
}

/// The lowercase hex digit characters.
pub open spec fn digit_char_lower(n: int) -> char {
    if n < 10 {
        digit_char(n)
    } else if n == 10 {
        'a'
    } else if n == 11 {
        'b'
    } else if n == 12 {
        'c'
    } else if n == 13 {
        'd'
    } else if n == 14 {
        'e'
    } else {
        'f'
    }
}

/// The decimal digits of `n`, most significant first.
pub open spec fn dec_nat(n: nat) -> Seq<char>
    decreases n,
{
    if n < 10 {
        seq![digit_char(n as int)]
    } else {
        dec_nat(n / 10).push(digit_char((n % 10) as int))
    }
}

/// The decimal rendering of an integer, with a leading minus sign when
/// negative.
pub open spec fn dec_int(v: int) -> Seq<char> {
    if v < 0 {
        seq!['-'] + dec_nat((-v) as nat)
    } else {
        dec_nat(v as nat)
    }
}

/// One byte as two uppercase hex digits.
pub open spec fn hex_byte_upper(b: u8) -> Seq<char> {
    seq![digit_char(b as int / 16), digit_char(b as int % 16)]
}

/// One byte as two lowercase hex digits.
pub open spec fn hex_byte_lower(b: u8) -> Seq<char> {
    seq![digit_char_lower(b as int / 16), digit_char_lower(b as int % 16)]
}

/// A byte string as a run of two-digit uppercase hex pairs.
pub open spec fn hex_bytes_upper(s: Seq<u8>) -> Seq<char>
    decreases s.len(),
{
    if s.len() == 0 {
        Seq::empty()
    } else {
        hex_bytes_upper(s.drop_last()) + hex_byte_upper(s.last())
    }
}

/// One byte in one list style.
pub open spec fn byte_text(fmt: RawDebugFormat, b: u8) -> Seq<char> {
    match fmt {
        RawDebugFormat::Standard => dec_nat(b as nat),
        RawDebugFormat::LowerHex => if b < 16 {
            seq![digit_char_lower(b as int)]
        } else {
            hex_byte_lower(b)
        },
        RawDebugFormat::UpperHex => if b < 16 {
            seq![digit_char(b as int)]
        } else {
            hex_byte_upper(b)
        },
        RawDebugFormat::PrettyLowerHex => seq!['0', 'x'] + hex_byte_lower(b),
        RawDebugFormat::PrettyUpperHex => seq!['0', 'x'] + hex_byte_upper(b),
        RawDebugFormat::Compact => Seq::empty(),
    }
}

/// The bytes in one list style, separated by commas.
pub open spec fn joined(fmt: RawDebugFormat, s: Seq<u8>) -> Seq<char>
    decreases s.len(),
{
    if s.len() == 0 {
        Seq::empty()
    } else if s.len() == 1 {
        byte_text(fmt, s[0])
    } else {
        joined(fmt, s.drop_last()) + seq![',', ' '] + byte_text(fmt, s.last())
    }
}

/// A byte list rendering: the styled bytes between square brackets.
pub open spec fn list_render(fmt: RawDebugFormat, s: Seq<u8>) -> Seq<char> {
    seq!['['] + joined(fmt, s) + seq![']']
}

/// The summed widths of a field-size list.
pub open spec fn sum_sizes(sizes: Seq<usize>) -> nat
    decreases sizes.len(),
{
    if sizes.len() == 0 {
        0
    } else {
        sum_sizes(sizes.drop_last()) + (sizes.last() as nat)
    }
}

/// The byte groups of the compact rendering after the first, each
/// preceded by an underscore.
pub open spec fn rest_groups(s: Seq<u8>, sizes: Seq<usize>) -> Seq<char>
    decreases sizes.len(),
{
    if sizes.len() == 0 {
        Seq::empty()
    } else {
        seq!['_'] + hex_bytes_upper(s.take(sizes[0] as int)) + rest_groups(
            s.skip(sizes[0] as int),
            sizes.drop_first(),
        )
    }
}

/// The compact rendering: `0x`, then each field's bytes in uppercase
/// hex, fields separated by underscores.
pub open spec fn compact_render(s: Seq<u8>, sizes: Seq<usize>) -> Seq<char>
    recommends
        sizes.len() >= 1,
{
    seq!['0', 'x'] + hex_bytes_upper(s.take(sizes[0] as int)) + rest_groups(
        s.skip(sizes[0] as int),
        sizes.drop_first(),
    )
}

/// A raw key buffer in the chosen format.
pub open spec fn raw_render(fmt: RawDebugFormat, s: Seq<u8>, sizes: Seq<usize>) -> Seq<char> {
    match fmt {
        RawDebugFormat::Compact => compact_render(s, sizes),
        _ => list_render(fmt, s),
    }
}

/// Append one uppercase digit character.
pub(crate) fn append_digit(s: &mut String, d: u8)
    requires
        d < 16,
    ensures
        final(s)@ == old(s)@.push(digit_char(d as int)),
{
    match d {
        0 => {
            s.append("0");
            proof {
                reveal_strlit("0");
                assert(old(s)@ + "0"@ =~= old(s)@.push('0'));
            }
        },
        1 => {
            s.append("1");
            proof {
                reveal_strlit("1");
                assert(old(s)@ + "1"@ =~= old(s)@.push('1'));
            }
        },
        2 => {
            s.append("2");
            proof {
                reveal_strlit("2");
                assert(old(s)@ + "2"@ =~= old(s)@.push('2'));
            }
        },
        3 => {
            s.append("3");
            proof {
                reveal_strlit("3");
                assert(old(s)@ + "3"@ =~= old(s)@.push('3'));
            }
        },
        4 => {
            s.append("4");
            proof {
                reveal_strlit("4");
                assert(old(s)@ + "4"@ =~= old(s)@.push('4'));
            }
        },
        5 => {
            s.append("5");
            proof {
                reveal_strlit("5");
                assert(old(s)@ + "5"@ =~= old(s)@.push('5'));
            }
        },
        6 => {
            s.append("6");
            proof {
                reveal_strlit("6");
                assert(old(s)@ + "6"@ =~= old(s)@.push('6'));
            }
        },
        7 => {
            s.append("7");
            proof {
                reveal_strlit("7");
                assert(old(s)@ + "7"@ =~= old(s)@.push('7'));
            }
        },
        8 => {
            s.append("8");
            proof {
                reveal_strlit("8");
                assert(old(s)@ + "8"@ =~= old(s)@.push('8'));
            }
        },
        9 => {
            s.append("9");
            proof {
                reveal_strlit("9");
                assert(old(s)@ + "9"@ =~= old(s)@.push('9'));
            }
        },
        10 => {
            s.append("A");
            proof {
                reveal_strlit("A");
                assert(old(s)@ + "A"@ =~= old(s)@.push('A'));
            }
        },
        11 => {
            s.append("B");
            proof {
                reveal_strlit("B");
                assert(old(s)@ + "B"@ =~= old(s)@.push('B'));
            }
        },
        12 => {
            s.append("C");
            proof {
                reveal_strlit("C");
                assert(old(s)@ + "C"@ =~= old(s)@.push('C'));
            }
        },
        13 => {
            s.append("D");
            proof {
                reveal_strlit("D");
                assert(old(s)@ + "D"@ =~= old(s)@.push('D'));
            }
        },
        14 => {
            s.append("E");
            proof {
                reveal_strlit("E");
                assert(old(s)@ + "E"@ =~= old(s)@.push('E'));
            }
        },
        _ => {
            s.append("F");
            proof {
                reveal_strlit("F");
                assert(old(s)@ + "F"@ =~= old(s)@.push('F'));
            }
        },
    }
}

/// Append one lowercase hex digit character.
pub(crate) fn append_digit_lower(s: &mut String, d: u8)
    requires
        d < 16,
    ensures
        final(s)@ == old(s)@.push(digit_char_lower(d as int)),
{
    if d < 10 {
        append_digit(s, d);
        return ;
    }
    match d {
        10 => {
            s.append("a");
            proof {
                reveal_strlit("a");
                assert(old(s)@ + "a"@ =~= old(s)@.push('a'));
            }
        },
        11 => {
            s.append("b");
            proof {
                reveal_strlit("b");
                assert(old(s)@ + "b"@ =~= old(s)@.push('b'));
            }
        },
        12 => {
            s.append("c");
            proof {
                reveal_strlit("c");
                assert(old(s)@ + "c"@ =~= old(s)@.push('c'));
            }
        },
        13 => {
            s.append("d");
            proof {
                reveal_strlit("d");
                assert(old(s)@ + "d"@ =~= old(s)@.push('d'));
            }
        },
        14 => {
            s.append("e");
            proof {
                reveal_strlit("e");
                assert(old(s)@ + "e"@ =~= old(s)@.push('e'));
            }
        },
        _ => {
            s.append("f");
            proof {
                reveal_strlit("f");
                assert(old(s)@ + "f"@ =~= old(s)@.push('f'));
            }
        },
    }
}

/// Append the decimal digits of `v`.
pub(crate) fn append_dec(s: &mut String, v: u128)
    ensures
        final(s)@ == old(s)@ + dec_nat(v as nat),
    decreases v,
{
    if v >= 10 {
        proof {
            vstd::arithmetic::div_mod::lemma_div_is_strictly_smaller(v as int, 10);
        }
        append_dec(s, v / 10);
    }
    append_digit(s, (v % 10) as u8);
    proof {
        if v >= 10 {
            assert(dec_nat(v as nat) == dec_nat((v as nat) / 10).push(
                digit_char(((v as nat) % 10) as int),
            ));
            assert(old(s)@ + dec_nat((v as nat) / 10).push(digit_char(((v as nat) % 10) as int))
                =~= (old(s)@ + dec_nat((v as nat) / 10)).push(digit_char(((v as nat) % 10) as int)));
        } else {
            assert(old(s)@ + dec_nat(v as nat) =~= old(s)@.push(digit_char(v as int)));
        }
    }
}

/// Append one byte as two uppercase hex digits.
pub(crate) fn append_hex_byte(s: &mut String, b: u8)
    ensures
        final(s)@ == old(s)@ + hex_byte_upper(b),
{
    append_digit(s, b / 16);
    append_digit(s, b % 16);
    proof {
        assert(old(s)@ + hex_byte_upper(b) =~= old(s)@.push(digit_char(b as int / 16)).push(
            digit_char(b as int % 16),
        ));
    }
}

/// Append one byte as two lowercase hex digits.
pub(crate) fn append_hex_byte_lower(s: &mut String, b: u8)
    ensures
        final(s)@ == old(s)@ + hex_byte_lower(b),
{
    append_digit_lower(s, b / 16);
    append_digit_lower(s, b % 16);
    proof {
        assert(old(s)@ + hex_byte_lower(b) =~= old(s)@.push(digit_char_lower(b as int / 16)).push(
            digit_char_lower(b as int % 16),
        ));
    }
}

/// Append one byte in one list style.
pub(crate) fn append_byte_text(s: &mut String, fmt: RawDebugFormat, b: u8)
    requires
        fmt != RawDebugFormat::Compact,
    ensures
        final(s)@ == old(s)@ + byte_text(fmt, b),
{
    match fmt {
        RawDebugFormat::Standard => {
            append_dec(s, b as u128);
        },
        RawDebugFormat::LowerHex => {
            if b < 16 {
                append_digit_lower(s, b);
                proof {
                    assert(old(s)@ + byte_text(fmt, b) =~= old(s)@.push(digit_char_lower(b as int)));
                }
            } else {
                append_hex_byte_lower(s, b);
            }
        },
        RawDebugFormat::UpperHex => {
            if b < 16 {
                append_digit(s, b);
                proof {
                    assert(old(s)@ + byte_text(fmt, b) =~= old(s)@.push(digit_char(b as int)));
                }
            } else {
                append_hex_byte(s, b);
            }
        },
        RawDebugFormat::PrettyLowerHex => {
            s.append("0x");
            append_hex_byte_lower(s, b);
            proof {
                reveal_strlit("0x");
                assert("0x"@ =~= seq!['0', 'x']);
                assert(old(s)@ + byte_text(fmt, b) =~= (old(s)@ + "0x"@) + hex_byte_lower(b));
            }
        },
        _ => {
            s.append("0x");
            append_hex_byte(s, b);
            proof {
                reveal_strlit("0x");
                assert("0x"@ =~= seq!['0', 'x']);
                assert(old(s)@ + byte_text(fmt, b) =~= (old(s)@ + "0x"@) + hex_byte_upper(b));
            }
        },
    }
}

/// Render a byte buffer as a list in the chosen style.
pub fn render_list(fmt: RawDebugFormat, bytes: &[u8]) -> (r: String)
    requires
        fmt != RawDebugFormat::Compact,
    ensures
        r@ == list_render(fmt, bytes@),
{
    let n = bytes.len();
    let mut s = String::new();
    s.append("[");
    proof {
        reveal_strlit("[");
        assert(s@ =~= seq!['[']);
        assert(bytes@.take(0) =~= Seq::<u8>::empty());
        assert(s@ =~= seq!['['] + joined(fmt, bytes@.take(0)));
    }
    let mut i: usize = 0;
    while i < n
        invariant
            i <= n,
            n == bytes@.len(),
            fmt != RawDebugFormat::Compact,
            s@ == seq!['['] + joined(fmt, bytes@.take(i as int)),
        decreases n - i,
    {
        let ghost pre = s@;
        if i > 0 {
            s.append(", ");
            proof {
                reveal_strlit(", ");
                assert(", "@ =~= seq![',', ' ']);
            }
        }
        append_byte_text(&mut s, fmt, bytes[i]);
        proof {
            assert(bytes@.take(i + 1).drop_last() =~= bytes@.take(i as int));
            assert(bytes@.take(i + 1).last() == bytes@[i as int]);
            if i > 0 {
                assert(s@ =~= (pre + seq![',', ' ']) + byte_text(fmt, bytes@[i as int]));
                assert(joined(fmt, bytes@.take(i + 1)) == joined(fmt, bytes@.take(i as int)) + seq![
                    ',',
                    ' ',
                ] + byte_text(fmt, bytes@[i as int]));
                assert(s@ =~= seq!['['] + joined(fmt, bytes@.take(i + 1)));
            } else {
                assert(bytes@.take(1) =~= seq![bytes@[0]]);
                assert(joined(fmt, bytes@.take(0)) =~= Seq::<char>::empty());
                assert(s@ =~= seq!['['] + joined(fmt, bytes@.take(1)));
            }
        }
        i = i + 1;
    }
    s.append("]");
    proof {
        reveal_strlit("]");
        assert("]"@ =~= seq![']']);
        assert(bytes@.take(n as int) =~= bytes@);
        assert(s@ =~= list_render(fmt, bytes@));
    }
    s
}

/// Append the uppercase hex pairs of a byte range.
pub(crate) fn append_hex_range(s: &mut String, bytes: &[u8], start: usize, w: usize)
    requires
        start + w <= bytes@.len(),
    ensures
        final(s)@ == old(s)@ + hex_bytes_upper(bytes@.subrange(start as int, start + w)),
{
    let n = bytes.len();
    let mut j: usize = 0;
    proof {
        assert(bytes@.subrange(start as int, start as int) =~= Seq::<u8>::empty());
        assert(old(s)@ + hex_bytes_upper(bytes@.subrange(start as int, start as int)) =~= old(s)@);
    }
    while j < w
        invariant
            j <= w,
            start + w <= n,
            n == bytes@.len(),
            s@ == old(s)@ + hex_bytes_upper(bytes@.subrange(start as int, start + j)),
        decreases w - j,
    {
        let ghost pre = s@;
        append_hex_byte(s, bytes[start + j]);
        proof {
            let sub = bytes@.subrange(start as int, start + j + 1);
            assert(sub.drop_last() =~= bytes@.subrange(start as int, start + j));
            assert(sub.last() == bytes@[start + j]);
            assert(s@ =~= old(s)@ + hex_bytes_upper(sub));
        }
        j = j + 1;
    }
}

/// Render a key buffer compactly: `0x`, each field's bytes as uppercase
/// hex, fields separated by underscores.
pub fn render_compact(bytes: &[u8], sizes: &Vec<usize>) -> (r: String)
    requires
        sizes@.len() >= 1,
        sum_sizes(sizes@) == bytes@.len(),
    ensures
        r@ == compact_render(bytes@, sizes@),
{
    let g_count = sizes.len();
    let blen = bytes.len();
    let mut s = String::new();
    s.append("0x");
    proof {
        reveal_strlit("0x");
        assert(s@ =~= seq!['0', 'x']);
        lemma_sum_sizes_split(sizes@, 1);
        assert(sizes@.take(1).drop_last() =~= Seq::<usize>::empty());
        assert(sizes@.take(1).last() == sizes@[0]);
        assert(sum_sizes(sizes@.take(1)) == sizes@[0]);
        lemma_sum_sizes_prefix(sizes@, 1);
    }
    let w0 = sizes[0];
    append_hex_range(&mut s, bytes, 0, w0);
    let mut pos: usize = w0;
    let mut g: usize = 1;
    let ghost target = seq!['0', 'x'] + hex_bytes_upper(bytes@.take(sizes@[0] as int))
        + rendered_rest(bytes@, sizes@, 1);
    proof {
        assert(bytes@.subrange(0, w0 as int) =~= bytes@.take(w0 as int));
        assert(s@ + rendered_rest(bytes@, sizes@, 1) =~= target);
    }
    while g < g_count
        invariant
            1 <= g <= g_count,
            g_count == sizes@.len(),
            blen == bytes@.len(),
            sum_sizes(sizes@) == bytes@.len(),
            pos == sum_sizes(sizes@.take(g as int)),
            pos <= blen,
            target == seq!['0', 'x'] + hex_bytes_upper(bytes@.take(sizes@[0] as int))
                + rendered_rest(bytes@, sizes@, 1),
            s@ + rendered_rest(bytes@, sizes@, g as int) == target,
        decreases g_count - g,
    {
        let ghost pre = s@;
        let w = sizes[g];
        proof {
            lemma_sum_sizes_split(sizes@, g + 1);
            assert(sizes@.take(g + 1).drop_last() =~= sizes@.take(g as int));
            assert(sizes@.take(g + 1).last() == sizes@[g as int]);
            lemma_sum_sizes_prefix(sizes@, g + 1);
        }
        s.append("_");
        proof {
            reveal_strlit("_");
            assert("_"@ =~= seq!['_']);
        }
        append_hex_range(&mut s, bytes, pos, w);
        proof {
            lemma_rendered_rest_step(bytes@, sizes@, g as int);
            assert(s@ =~= (pre + seq!['_']) + hex_bytes_upper(
                bytes@.subrange(pos as int, pos + w),
            ));
            assert(s@ + rendered_rest(bytes@, sizes@, g + 1) =~= pre + rendered_rest(
                bytes@,
                sizes@,
                g as int,
            ));
        }
        pos = pos + w;
        g = g + 1;
    }
    proof {
        assert(rendered_rest(bytes@, sizes@, g as int) =~= Seq::<char>::empty());
        assert(s@ =~= target);
        lemma_rendered_rest_end(bytes@, sizes@);
        assert(s@ =~= compact_render(bytes@, sizes@));
    }
    s
}

/// The compact rendering of the groups before index `g` is done; what
/// the groups from `g` on will add.
spec fn rendered_rest(bytes: Seq<u8>, sizes: Seq<usize>, g: int) -> Seq<char>
    decreases sizes.len() - g,
{
    if g < 1 || g >= sizes.len() {
        Seq::empty()
    } else {
        seq!['_'] + hex_bytes_upper(
            bytes.subrange(
                sum_sizes(sizes.take(g)) as int,
                sum_sizes(sizes.take(g)) + sizes[g],
            ),
        ) + rendered_rest(bytes, sizes, g + 1)
    }
}

/// The partial sums of the sizes never exceed the total.
proof fn lemma_sum_sizes_prefix(sizes: Seq<usize>, m: int)
    requires
        0 <= m <= sizes.len(),
    ensures
        sum_sizes(sizes.take(m)) <= sum_sizes(sizes),
    decreases sizes.len() - m,
{
    if m == sizes.len() {
        assert(sizes.take(m) =~= sizes);
    } else {
        lemma_sum_sizes_prefix(sizes, m + 1);
        lemma_sum_sizes_split(sizes, m + 1);
        assert(sizes.take(m + 1).drop_last() =~= sizes.take(m));
    }
}

/// One more size extends the partial sum by that size.
proof fn lemma_sum_sizes_split(sizes: Seq<usize>, m: int)
    requires
        1 <= m <= sizes.len(),
    ensures
        sum_sizes(sizes.take(m)) == sum_sizes(sizes.take(m - 1)) + sizes[m - 1],
{
    assert(sizes.take(m).drop_last() =~= sizes.take(m - 1));
    assert(sizes.take(m).last() == sizes[m - 1]);
}

/// Unfolding one group of the remaining compact rendering.
proof fn lemma_rendered_rest_step(bytes: Seq<u8>, sizes: Seq<usize>, g: int)
    requires
        1 <= g < sizes.len(),
    ensures
        rendered_rest(bytes, sizes, g) == seq!['_'] + hex_bytes_upper(
            bytes.subrange(
                sum_sizes(sizes.take(g)) as int,
                sum_sizes(sizes.take(g)) + sizes[g],
            ),
        ) + rendered_rest(bytes, sizes, g + 1),
{
}

/// The remaining-groups view agrees with the specification's own
/// recursion over the tail of the size list.
proof fn lemma_rendered_rest_end(bytes: Seq<u8>, sizes: Seq<usize>)
    requires
        sizes.len() >= 1,
        sum_sizes(sizes) == bytes.len(),
    ensures
        compact_render(bytes, sizes) == seq!['0', 'x'] + hex_bytes_upper(
            bytes.take(sizes[0] as int),
        ) + rendered_rest(bytes, sizes, 1),
{
    lemma_rendered_rest_shift(bytes, sizes, 1);
    assert(sum_sizes(sizes.take(1)) == sizes[0]) by {
        assert(sizes.take(1).drop_last() =~= Seq::<usize>::empty());
        assert(sizes.take(1).last() == sizes[0]);
        assert(sum_sizes(Seq::<usize>::empty()) == 0);
        assert(sizes.take(1).len() == 1);
        assert(sum_sizes(sizes.take(1)) == sum_sizes(sizes.take(1).drop_last()) + (sizes.take(
            1,
        ).last() as nat));
    }
    assert(sizes.skip(1) =~= sizes.drop_first());
    assert(rest_groups(bytes.skip(sizes[0] as int), sizes.drop_first()) == rendered_rest(
        bytes,
        sizes,
        1,
    ));
}

/// The remaining-groups view from position `g` equals the
/// specification's recursion on the corresponding suffixes.
proof fn lemma_rendered_rest_shift(bytes: Seq<u8>, sizes: Seq<usize>, g: int)
    requires
        1 <= g <= sizes.len(),
        sum_sizes(sizes) <= bytes.len(),
    ensures
        rest_groups(
            bytes.skip(sum_sizes(sizes.take(g)) as int),
            sizes.skip(g),
        ) == rendered_rest(bytes, sizes, g),
    decreases sizes.len() - g,
{
    let off = sum_sizes(sizes.take(g)) as int;
    if g == sizes.len() {
        assert(sizes.skip(g) =~= Seq::<usize>::empty());
    } else {
        lemma_rendered_rest_shift(bytes, sizes, g + 1);
        lemma_sum_sizes_split(sizes, g + 1);
        assert(sizes.take(g + 1).drop_last() =~= sizes.take(g));
        assert(sizes.take(g + 1).last() == sizes[g]);
        lemma_sum_sizes_prefix(sizes, g + 1);
        assert(off + sizes[g] <= bytes.len());
        let tail = bytes.skip(off);
        let w = sizes[g] as int;
        assert(sizes.skip(g)[0] == sizes[g]);
        assert(sizes.skip(g).drop_first() =~= sizes.skip(g + 1));
        assert(tail.take(w) =~= bytes.subrange(off, off + w));
        assert(tail.skip(w) =~= bytes.skip(off + w));
        assert(rest_groups(tail, sizes.skip(g)) == seq!['_'] + hex_bytes_upper(
            bytes.subrange(off, off + w),
        ) + rest_groups(bytes.skip(off + w), sizes.skip(g + 1)));
    }
}

/// Render a key buffer in the chosen format.
pub fn render_raw(fmt: RawDebugFormat, bytes: &[u8], sizes: &Vec<usize>) -> (r: String)
    requires
        fmt == RawDebugFormat::Compact ==> sizes@.len() >= 1 && sum_sizes(sizes@) == bytes@.len(),
    ensures
        r@ == raw_render(fmt, bytes@, sizes@),
{
    match fmt {
        RawDebugFormat::Compact => render_compact(bytes, sizes),
        _ => render_list(fmt, bytes),
    }
}

impl RawDebugFormat {
    /// The format a configuration word names, if any.
    pub fn from_text(s: &String) -> (r: Option<RawDebugFormat>)
        ensures
            r == Some(RawDebugFormat::Compact) <==> s@ == "compact"@,
            r == Some(RawDebugFormat::Standard) <==> s@ == "std"@,
            r == Some(RawDebugFormat::LowerHex) <==> s@ == "lower_hex"@,
            r == Some(RawDebugFormat::UpperHex) <==> s@ == "upper_hex"@,
            r == Some(RawDebugFormat::PrettyLowerHex) <==> s@ == "pretty_lower_hex"@,
            r == Some(RawDebugFormat::PrettyUpperHex) <==> s@ == "pretty_upper_hex"@,
            r is None <==> (s@ != "compact"@ && s@ != "std"@ && s@ != "lower_hex"@ && s@
                != "upper_hex"@ && s@ != "pretty_lower_hex"@ && s@ != "pretty_upper_hex"@),
    {
        proof {
            reveal_strlit("compact");
            reveal_strlit("std");
            reveal_strlit("lower_hex");
            reveal_strlit("upper_hex");
            reveal_strlit("pretty_lower_hex");
            reveal_strlit("pretty_upper_hex");
            // The six configuration words are pairwise distinct: they
            // differ in length, or at the underlined character.
            assert("compact"@.len() == 7 && "std"@.len() == 3 && "lower_hex"@.len() == 9
                && "upper_hex"@.len() == 9 && "pretty_lower_hex"@.len() == 16
                && "pretty_upper_hex"@.len() == 16);
            assert("lower_hex"@[0] == 'l' && "upper_hex"@[0] == 'u');
            assert("pretty_lower_hex"@[7] == 'l' && "pretty_upper_hex"@[7] == 'u');
        }
        if *s == String::from_str("compact") {
            Some(RawDebugFormat::Compact)
        } else if *s == String::from_str("std") {
            Some(RawDebugFormat::Standard)
        } else if *s == String::from_str("lower_hex") {
            Some(RawDebugFormat::LowerHex)
        } else if *s == String::from_str("upper_hex") {
            Some(RawDebugFormat::UpperHex)
        } else if *s == String::from_str("pretty_lower_hex") {
            Some(RawDebugFormat::PrettyLowerHex)
        } else if *s == String::from_str("pretty_upper_hex") {
            Some(RawDebugFormat::PrettyUpperHex)
        } else {
            None
        }
    }
}

} // verus!
