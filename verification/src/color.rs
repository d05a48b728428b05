//! The RGBA color value used for styling, with its textual form
//! `"r,g,b[,a]"` and its packed 32-bit form for the render sink.

use vstd::prelude::*;

use crate::errors::ConfigError;

verus! {

/// An RGBA color. Parsed from `"r,g,b[,a]"`; a missing alpha means opaque
/// (255).
#[derive(Debug, Clone, Copy, PartialEq, Eq, Structural)]
pub struct Rgba {
    pub r: u8,
    pub g: u8,
    pub b: u8,
    pub a: u8,
}

impl Default for Rgba {
    /// Black, fully transparent.
    fn default() -> (r: Self)
        ensures
            r == (Rgba { r: 0, g: 0, b: 0, a: 0 }),
    {
        Rgba { r: 0, g: 0, b: 0, a: 0 }
    }
}

/// The packed form `r<<24 | g<<16 | b<<8 | a` that the render sink's color
/// type takes.
pub open spec fn packed_rgba(r: u8, g: u8, b: u8, a: u8) -> u32 {
    ((r as u32) << 24) | ((g as u32) << 16) | ((b as u32) << 8) | (a as u32)
}

/// Packs four channel values into one 32-bit color word.
pub fn rgba(r: u8, g: u8, b: u8, a: u8) -> (w: u32)
    ensures
        w == packed_rgba(r, g, b, a),
{
    ((r as u32) << 24) | ((g as u32) << 16) | ((b as u32) << 8) | (a as u32)
}

/// Whether `c` is a decimal digit.
pub open spec fn is_dec_digit(c: char) -> bool {
    48 <= c as u32 <= 57
}

/// The value of a decimal digit character.
pub open spec fn digit_val(c: char) -> int {
    c as u32 - 48
}

/// Whether every character of `s` is a decimal digit.
pub open spec fn all_dec_digits(s: Seq<char>) -> bool {
    forall|i: int| 0 <= i < s.len() ==> is_dec_digit(#[trigger] s[i])
}

/// The number written by the digit characters `s`, most significant first.
pub open spec fn dec_value(s: Seq<char>) -> nat
    decreases s.len(),
{
    if s.len() == 0 {
        0
    } else {
        (dec_value(s.drop_last()) * 10 + digit_val(s.last())) as nat
    }
}

/// Whether `s` is a well-formed color component: at least one character,
/// all decimal digits, and a value that fits in 8 bits.
pub open spec fn component_ok(s: Seq<char>) -> bool {
    s.len() > 0 && all_dec_digits(s) && dec_value(s) <= 255
}

/// Appending digits to a number never shrinks it: the value of a prefix is
/// at most the value of the whole digit string.
proof fn lemma_dec_value_prefix(s: Seq<char>, p: int)
    requires
        0 <= p <= s.len(),
        all_dec_digits(s),
    ensures
        dec_value(s.subrange(0, p)) <= dec_value(s),
    decreases s.len() - p,
{
    if p == s.len() {
        assert(s.subrange(0, p) =~= s);
    } else {
        let t = s.subrange(0, p + 1);
        assert(t.drop_last() =~= s.subrange(0, p));
        assert(is_dec_digit(s[p]));
        assert(dec_value(t) == dec_value(s.subrange(0, p)) * 10 + digit_val(s[p]));
        assert(dec_value(s.subrange(0, p)) <= dec_value(t));
        lemma_dec_value_prefix(s, p + 1);
    }
}

/// Parses one color component: the digits of a number up to 255.
fn parse_component(v: &Vec<char>) -> (r: Result<u8, ConfigError>)
    ensures
        component_ok(v@) ==> r == Ok::<u8, ConfigError>((dec_value(v@) as u8)),
        !component_ok(v@) ==> r == Err::<u8, ConfigError>(ConfigError::InvalidColorComponent),
{
    if v.len() == 0 {
        return Err(ConfigError::InvalidColorComponent);
    }
    let mut acc: u32 = 0;
    let mut i: usize = 0;
    while i < v.len()
        invariant
            0 <= i <= v@.len(),
            all_dec_digits(v@.subrange(0, i as int)),
            acc == dec_value(v@.subrange(0, i as int)),
            acc <= 255,
        decreases v@.len() - i,
    {
        let c = v[i];
        let code = c as u32;
        if code < 48 || code > 57 {
            assert(!is_dec_digit(v@[i as int]));
            return Err(ConfigError::InvalidColorComponent);
        }
        let d = code - 48;
        let next = acc * 10 + d;
        proof {
            assert(v@.subrange(0, i + 1).drop_last() =~= v@.subrange(0, i as int));
            assert(dec_value(v@.subrange(0, i + 1)) == acc * 10 + digit_val(v@[i as int]));
        }
        if next > 255 {
            proof {
                if all_dec_digits(v@) {
                    lemma_dec_value_prefix(v@, i + 1);
                }
            }
            return Err(ConfigError::InvalidColorComponent);
        }
        acc = next;
        i += 1;
    }
    proof {
        assert(v@.subrange(0, v@.len() as int) =~= v@);
    }
    Ok(acc as u8)
}

/// The pieces of `s` between its commas, in order. A string without commas
/// is one piece; every comma ends a piece, so `"a,"` has an empty second
/// piece.
pub open spec fn split_commas(s: Seq<char>) -> Seq<Seq<char>>
    decreases s.len(),
{
    if s.len() == 0 {
        seq![Seq::<char>::empty()]
    } else if s.last() == ',' {
        split_commas(s.drop_last()).push(Seq::<char>::empty())
    } else {
        let r = split_commas(s.drop_last());
        r.update(r.len() - 1, r.last().push(s.last()))
    }
}

/// What parsing a color string yields: the first three comma-separated
/// components are the red, green and blue channels, an optional fourth is
/// the alpha channel (255 when absent), and pieces beyond the fourth are
/// ignored. A missing component is reported as such; a component that is
/// empty, non-numeric or above 255 is invalid.
pub open spec fn parse_rgba_spec(s: Seq<char>) -> Result<Rgba, ConfigError> {
    let parts = split_commas(s);
    if !component_ok(parts[0]) {
        Err(ConfigError::InvalidColorComponent)
    } else if parts.len() < 2 {
        Err(ConfigError::MissingColorComponent)
    } else if !component_ok(parts[1]) {
        Err(ConfigError::InvalidColorComponent)
    } else if parts.len() < 3 {
        Err(ConfigError::MissingColorComponent)
    } else if !component_ok(parts[2]) {
        Err(ConfigError::InvalidColorComponent)
    } else if parts.len() >= 4 && !component_ok(parts[3]) {
        Err(ConfigError::InvalidColorComponent)
    } else {
        Ok(
            Rgba {
                r: dec_value(parts[0]) as u8,
                g: dec_value(parts[1]) as u8,
                b: dec_value(parts[2]) as u8,
                a: if parts.len() >= 4 {
                    dec_value(parts[3]) as u8
                } else {
                    255
                },
            },
        )
    }
}

/// Splits `s` at its commas into character vectors.
fn split_commas_exec(s: &str) -> (parts: Vec<Vec<char>>)
    ensures
        parts@.map_values(|v: Vec<char>| v@) == split_commas(s@),
        parts@.len() >= 1,
{
    let n = s.unicode_len();
    let mut parts: Vec<Vec<char>> = Vec::new();
    let mut cur: Vec<char> = Vec::new();
    let mut i: usize = 0;
    proof {
        assert(s@.subrange(0, 0) =~= Seq::<char>::empty());
        assert(parts@.map_values(|v: Vec<char>| v@).push(cur@) =~= split_commas(
            s@.subrange(0, 0),
        ));
    }
    while i < n
        invariant
            n == s@.len(),
            0 <= i <= n,
            parts@.map_values(|v: Vec<char>| v@).push(cur@) == split_commas(
                s@.subrange(0, i as int),
            ),
        decreases n - i,
    {
        let ghost prev = parts@.map_values(|v: Vec<char>| v@).push(cur@);
        let c = s.get_char(i);
        proof {
            assert(s@.subrange(0, i + 1).drop_last() =~= s@.subrange(0, i as int));
            assert(s@.subrange(0, i + 1).last() == s@[i as int]);
        }
        if c == ',' {
            parts.push(cur);
            cur = Vec::new();
            proof {
                assert(parts@.map_values(|v: Vec<char>| v@).push(cur@) =~= prev.push(
                    Seq::<char>::empty(),
                ));
            }
        } else {
            cur.push(c);
            proof {
                assert(parts@.map_values(|v: Vec<char>| v@).push(cur@) =~= prev.update(
                    prev.len() - 1,
                    prev.last().push(c),
                ));
            }
        }
        i += 1;
    }
    proof {
        assert(s@.subrange(0, n as int) =~= s@);
    }
    parts.push(cur);
    proof {
        assert(parts@.map_values(|v: Vec<char>| v@) =~= split_commas(s@));
    }
    parts
}

impl Rgba {
    /// Parses `"r,g,b[,a]"` into a color; a missing alpha defaults to 255.
    pub fn from_str(s: &str) -> (r: Result<Rgba, ConfigError>)
        ensures
            r == parse_rgba_spec(s@),
    {
        let parts = split_commas_exec(s);
        proof {
            assert(forall|k: int|
                0 <= k < parts@.len() ==> #[trigger] parts@[k]@ == parts@.map_values(
                    |v: Vec<char>| v@,
                )[k]);
        }
        let r = match parse_component(&parts[0]) {
            Ok(x) => x,
            Err(e) => {
                return Err(e);
            },
        };
        if parts.len() < 2 {
            return Err(ConfigError::MissingColorComponent);
        }
        let g = match parse_component(&parts[1]) {
            Ok(x) => x,
            Err(e) => {
                return Err(e);
            },
        };
        if parts.len() < 3 {
            return Err(ConfigError::MissingColorComponent);
        }
        let b = match parse_component(&parts[2]) {
            Ok(x) => x,
            Err(e) => {
                return Err(e);
            },
        };
        let a = if parts.len() >= 4 {
            match parse_component(&parts[3]) {
                Ok(x) => x,
                Err(e) => {
                    return Err(e);
                },
            }
        } else {
            255
        };
        Ok(Rgba { r, g, b, a })
    }

    /// The packed 32-bit form of this color for the render sink.
    pub fn to_u32(&self) -> (w: u32)
        ensures
            w == packed_rgba(self.r, self.g, self.b, self.a),
    {
        rgba(self.r, self.g, self.b, self.a)
    }

    /// Writes the color back in its comma-joined form `"r,g,b,a"`.
    pub fn to_csv(&self) -> (r: String)
        ensures
            r@ == csv_of(*self),
    {
        let mut out = String::new();
        push_decimal(&mut out, self.r);
        out.append(",");
        push_decimal(&mut out, self.g);
        out.append(",");
        push_decimal(&mut out, self.b);
        out.append(",");
        push_decimal(&mut out, self.a);
        proof {
            reveal_strlit(",");
            assert(out@ =~= csv_of(*self));
        }
        out
    }
}

/// The digit character for a value below ten.
pub open spec fn digit_char(d: int) -> char {
    ((48 + d) as u8) as char
}

/// The decimal digits of `n`, most significant first, without leading
/// zeros.
pub open spec fn dec_repr(n: nat) -> Seq<char>
    decreases n,
{
    if n < 10 {
        seq![digit_char(n as int)]
    } else {
        dec_repr(n / 10).push(digit_char((n % 10) as int))
    }
}

/// The comma-joined textual form of a color, alpha always written.
pub open spec fn csv_of(c: Rgba) -> Seq<char> {
    dec_repr(c.r as nat) + seq![','] + dec_repr(c.g as nat) + seq![','] + dec_repr(c.b as nat)
        + seq![','] + dec_repr(c.a as nat)
}

/// The one-character string for a digit value.
fn digit_str(d: u8) -> (r: &'static str)
    requires
        d < 10,
    ensures
        r@ == seq![digit_char(d as int)],
{
    let r: &'static str = match d {
        0 => "0",
        1 => "1",
        2 => "2",
        3 => "3",
        4 => "4",
        5 => "5",
        6 => "6",
        7 => "7",
        8 => "8",
        _ => "9",
    };
    proof {
        reveal_strlit("0");
        reveal_strlit("1");
        reveal_strlit("2");
        reveal_strlit("3");
        reveal_strlit("4");
        reveal_strlit("5");
        reveal_strlit("6");
        reveal_strlit("7");
        reveal_strlit("8");
        reveal_strlit("9");
        assert(r@ =~= seq![digit_char(d as int)]);
    }
    r
}

/// A decimal representation is never empty, holds digits only (never a
/// comma), and reads back as the number it was made from.
proof fn lemma_dec_repr_reads_back(n: nat)
    ensures
        dec_repr(n).len() >= 1,
        all_dec_digits(dec_repr(n)),
        dec_value(dec_repr(n)) == n,
        forall|i: int| 0 <= i < dec_repr(n).len() ==> dec_repr(n)[i] != ',',
    decreases n,
{
    if n < 10 {
        assert(dec_repr(n) == seq![digit_char(n as int)]);
        assert(dec_repr(n).drop_last() =~= Seq::<char>::empty());
        assert(dec_value(Seq::<char>::empty()) == 0);
        assert(digit_val(digit_char(n as int)) == n);
        assert(dec_value(dec_repr(n)) == 0 * 10 + digit_val(digit_char(n as int)));
    } else {
        lemma_dec_repr_reads_back(n / 10);
        let s = dec_repr(n);
        assert(s == dec_repr(n / 10).push(digit_char((n % 10) as int)));
        assert(s.drop_last() =~= dec_repr(n / 10));
        assert(digit_val(digit_char((n % 10) as int)) == n % 10);
        assert(dec_value(s) == (n / 10) * 10 + n % 10);
        assert(forall|i: int|
            0 <= i < s.len() - 1 ==> s[i] == dec_repr(n / 10)[i] && is_dec_digit(#[trigger] s[i])
                && s[i] != ',');
    }
}

/// Splitting yields at least one piece.
proof fn lemma_split_commas_len(s: Seq<char>)
    ensures
        split_commas(s).len() >= 1,
    decreases s.len(),
{
    if s.len() > 0 {
        lemma_split_commas_len(s.drop_last());
    }
}

/// A comma-free string is a single piece.
proof fn lemma_split_commas_pure(s: Seq<char>)
    requires
        forall|i: int| 0 <= i < s.len() ==> s[i] != ',',
    ensures
        split_commas(s) == seq![s],
    decreases s.len(),
{
    if s.len() == 0 {
        assert(split_commas(s) =~~= seq![s]);
    } else {
        assert(forall|i: int| 0 <= i < s.drop_last().len() ==> s.drop_last()[i] == s[i]);
        lemma_split_commas_pure(s.drop_last());
        assert(s.last() != ',');
        assert(s.drop_last().push(s.last()) =~= s);
        assert(split_commas(s) =~~= seq![s]);
    }
}

/// Splitting around a comma splits the two sides separately.
proof fn lemma_split_commas_concat(a: Seq<char>, b: Seq<char>)
    ensures
        split_commas(a + seq![','] + b) == split_commas(a) + split_commas(b),
    decreases b.len(),
{
    lemma_split_commas_len(a);
    let t = a + seq![','] + b;
    if b.len() == 0 {
        assert(t =~= a + seq![',']);
        assert(t.len() == a.len() + 1);
        assert(t.last() == ',');
        assert(t.drop_last() =~= a);
        assert(split_commas(b) == seq![Seq::<char>::empty()]);
        assert(split_commas(t) =~~= split_commas(a) + split_commas(b));
    } else {
        lemma_split_commas_concat(a, b.drop_last());
        lemma_split_commas_len(b.drop_last());
        assert(t.len() > 0);
        assert(t.last() == b.last());
        assert(t.drop_last() =~= a + seq![','] + b.drop_last());
        if b.last() == ',' {
            assert(split_commas(t) == split_commas(t.drop_last()).push(Seq::<char>::empty()));
            assert(split_commas(b) == split_commas(b.drop_last()).push(Seq::<char>::empty()));
            assert(split_commas(t) =~~= split_commas(a) + split_commas(b));
        } else {
            let r = split_commas(t.drop_last());
            let rb = split_commas(b.drop_last());
            assert(r == split_commas(a) + rb);
            assert(split_commas(t) == r.update(r.len() - 1, r.last().push(t.last())));
            assert(split_commas(b) == rb.update(rb.len() - 1, rb.last().push(b.last())));
            assert(r.last() == rb.last());
            assert(split_commas(t) =~~= split_commas(a) + split_commas(b));
        }
    }
}

/// Writing a color out and parsing the text back restores the color
/// exactly: the comma-joined form is a faithful serialization.
pub proof fn lemma_csv_round_trip(c: Rgba)
    ensures
        parse_rgba_spec(csv_of(c)) == Ok::<Rgba, ConfigError>(c),
{
    let rr = dec_repr(c.r as nat);
    let gg = dec_repr(c.g as nat);
    let bb = dec_repr(c.b as nat);
    let aa = dec_repr(c.a as nat);
    lemma_dec_repr_reads_back(c.r as nat);
    lemma_dec_repr_reads_back(c.g as nat);
    lemma_dec_repr_reads_back(c.b as nat);
    lemma_dec_repr_reads_back(c.a as nat);
    let tail2 = bb + seq![','] + aa;
    let tail1 = gg + seq![','] + tail2;
    assert(csv_of(c) =~= rr + seq![','] + tail1);
    lemma_split_commas_concat(rr, tail1);
    lemma_split_commas_concat(gg, tail2);
    lemma_split_commas_concat(bb, aa);
    lemma_split_commas_pure(rr);
    lemma_split_commas_pure(gg);
    lemma_split_commas_pure(bb);
    lemma_split_commas_pure(aa);
    let parts = split_commas(csv_of(c));
    assert(parts =~~= seq![rr, gg, bb, aa]);
    assert(component_ok(parts[0]) && component_ok(parts[1]) && component_ok(parts[2])
        && component_ok(parts[3]));
    assert(parse_rgba_spec(csv_of(c)) == Ok::<Rgba, ConfigError>(
        Rgba {
            r: dec_value(rr) as u8,
            g: dec_value(gg) as u8,
            b: dec_value(bb) as u8,
            a: dec_value(aa) as u8,
        },
    ));
}

/// Appends the decimal digits of `n` to `out`.
fn push_decimal(out: &mut String, n: u8)
    ensures
        final(out)@ == old(out)@ + dec_repr(n as nat),
{
    if n >= 100 {
        out.append(digit_str(n / 100));
    }
    if n >= 10 {
        out.append(digit_str((n / 10) % 10));
    }
    out.append(digit_str(n % 10));
    proof {
        if n >= 100 {
            assert(n / 10 >= 10 && n / 10 < 100);
            assert((n / 10) / 10 == n / 100) by (nonlinear_arith);
            assert((n / 10) % 10 == (n / 10) % 10);
            assert(dec_repr(n as nat) == dec_repr((n / 10) as nat).push(
                digit_char((n % 10) as int),
            ));
            assert(dec_repr((n / 10) as nat) == dec_repr((n / 100) as nat).push(
                digit_char(((n / 10) % 10) as int),
            ));
            assert(dec_repr((n / 100) as nat) =~= seq![digit_char((n / 100) as int)]);
        } else if n >= 10 {
            assert(n / 10 < 10);
            assert((n / 10) % 10 == n / 10);
            assert(dec_repr(n as nat) == dec_repr((n / 10) as nat).push(
                digit_char((n % 10) as int),
            ));
        }
        assert(final(out)@ =~= old(out)@ + dec_repr(n as nat));
    }
}

} // verus!
