use vstd::prelude::*;

verus! {

pub const QUOTE: u8 = 0x22;

pub const BACKSLASH: u8 = 0x5c;

/// The lower-case hexadecimal digit for a value below sixteen.
pub open spec fn hex_digit(v: u8) -> u8 {
    if v < 10 {
        (0x30 + v) as u8
    } else {
        (0x57 + v) as u8
    }
}

/// The value of a hexadecimal digit of either case, if the byte is one.
pub open spec fn hex_value(b: u8) -> Option<u8> {
    if 0x30 <= b && b <= 0x39 {
        Some((b - 0x30) as u8)
    } else if 0x61 <= b && b <= 0x66 {
        Some((b - 0x57) as u8)
    } else if 0x41 <= b && b <= 0x46 {
        Some((b - 0x37) as u8)
    } else {
        None
    }
}

/// How one byte of a string's content is written between the quotes.
pub open spec fn escape_byte(b: u8) -> Seq<u8> {
    if b == QUOTE {
        seq![BACKSLASH, QUOTE]
    } else if b == BACKSLASH {
        seq![BACKSLASH, BACKSLASH]
    } else if short_escape(b) is Some {
        seq![BACKSLASH, short_escape(b).unwrap()]
    } else if b < 0x20 {
        seq![BACKSLASH, 0x75u8, 0x30u8, 0x30u8, hex_digit(b / 16), hex_digit(b % 16)]
    } else {
        seq![b]
    }
}

/// The letter of the short escape of a control byte that has one: `\b`, `\t`, `\n`,
/// `\f` and `\r`.
pub open spec fn short_escape(b: u8) -> Option<u8> {
    if b == 0x08 {
        Some(0x62)
    } else if b == 0x09 {
        Some(0x74)
    } else if b == 0x0a {
        Some(0x6e)
    } else if b == 0x0c {
        Some(0x66)
    } else if b == 0x0d {
        Some(0x72)
    } else {
        None
    }
}

/// The content of a string literal for the bytes `s`, without the quotes.
pub open spec fn escape(s: Seq<u8>) -> Seq<u8>
    decreases s.len(),
{
    if s.len() == 0 {
        seq![]
    } else {
        escape_byte(s[0]) + escape(s.drop_first())
    }
}

/// A string literal for the bytes `s`, quotes included.
pub open spec fn quoted(s: Seq<u8>) -> Seq<u8> {
    seq![QUOTE] + escape(s) + seq![QUOTE]
}

/// The byte that a one-letter escape sequence `\c` stands for.
pub open spec fn simple_escape(c: u8) -> Option<u8> {
    if c == QUOTE || c == BACKSLASH || c == 0x2f {
        Some(c)
    } else if c == 0x62 {
        Some(0x08)
    } else if c == 0x66 {
        Some(0x0c)
    } else if c == 0x6e {
        Some(0x0a)
    } else if c == 0x72 {
        Some(0x0d)
    } else if c == 0x74 {
        Some(0x09)
    } else {
        None
    }
}

/// The byte that `\u00XY` at position `i` (the backslash) stands for, where it stands
/// for an ASCII character.
pub open spec fn unicode_escape_at(s: Seq<u8>, i: int) -> Option<u8> {
    if i + 6 <= s.len() && s[i + 1] == 0x75 && s[i + 2] == 0x30 && s[i + 3] == 0x30
        && hex_value(s[i + 4]) is Some && hex_value(s[i + 5]) is Some
        && hex_value(s[i + 4]).unwrap() < 8 {
        Some((hex_value(s[i + 4]).unwrap() * 16 + hex_value(s[i + 5]).unwrap()) as u8)
    } else {
        None
    }
}

/// Reads the content of a string literal from position `i` (just after its opening
/// quote), having read `acc` so far. Gives the content and the position just after the
/// closing quote; `None` where the literal is unterminated or holds an escape that is
/// not understood. Raw control bytes are refused.
pub open spec fn unescape_from(s: Seq<u8>, i: int, acc: Seq<u8>) -> Option<(Seq<u8>, int)>
    decreases s.len() - i,
{
    if i < 0 || i >= s.len() {
        None
    } else if s[i] == QUOTE {
        Some((acc, i + 1))
    } else if s[i] < 0x20 {
        None
    } else if s[i] == BACKSLASH {
        if i + 1 >= s.len() {
            None
        } else if simple_escape(s[i + 1]) is Some {
            unescape_from(s, i + 2, acc.push(simple_escape(s[i + 1]).unwrap()))
        } else if unicode_escape_at(s, i) is Some {
            unescape_from(s, i + 6, acc.push(unicode_escape_at(s, i).unwrap()))
        } else {
            None
        }
    } else {
        unescape_from(s, i + 1, acc.push(s[i]))
    }
}

proof fn lemma_unescape_one(pre: Seq<u8>, b: u8, tail: Seq<u8>, acc: Seq<u8>)
    ensures
        unescape_from(pre + escape_byte(b) + tail, pre.len() as int, acc) == unescape_from(
            pre + escape_byte(b) + tail,
            (pre.len() + escape_byte(b).len()) as int,
            acc.push(b),
        ),
{
    let s = pre + escape_byte(b) + tail;
    let i = pre.len() as int;
    assert(s[i] == escape_byte(b)[0]);
    if b == QUOTE || b == BACKSLASH || short_escape(b) is Some {
        assert(s[i + 1] == escape_byte(b)[1]);
    } else if b < 0x20 {
        assert(s[i + 1] == 0x75);
        assert(s[i + 2] == 0x30);
        assert(s[i + 3] == 0x30);
        assert(s[i + 4] == hex_digit(b / 16));
        assert(s[i + 5] == hex_digit(b % 16));
        assert(unicode_escape_at(s, i) == Some(b));
    }
}

/// Reading a written string literal gives back its bytes, whatever follows it.
pub proof fn lemma_unescape_escape(pre: Seq<u8>, v: Seq<u8>, rest: Seq<u8>, acc: Seq<u8>)
    ensures
        unescape_from(pre + escape(v) + seq![QUOTE] + rest, pre.len() as int, acc) == Some(
            (acc + v, (pre.len() + escape(v).len() + 1) as int),
        ),
    decreases v.len(),
{
    let s = pre + escape(v) + seq![QUOTE] + rest;
    if v.len() == 0 {
        assert(s[pre.len() as int] == QUOTE);
        assert(acc + v =~= acc);
    } else {
        let b = v[0];
        let pre2 = pre + escape_byte(b);
        let tail = escape(v.drop_first()) + seq![QUOTE] + rest;
        assert(s =~= pre + escape_byte(b) + tail);
        lemma_unescape_one(pre, b, tail, acc);
        assert(s =~= pre2 + escape(v.drop_first()) + seq![QUOTE] + rest);
        lemma_unescape_escape(pre2, v.drop_first(), rest, acc.push(b));
        assert(acc.push(b) + v.drop_first() =~= acc + v);
    }
}

fn hex_digit_exec(v: u8) -> (r: u8)
    requires
        v < 16,
    ensures
        r == hex_digit(v),
{
    if v < 10 {
        0x30 + v
    } else {
        0x57 + v
    }
}

fn hex_value_exec(b: u8) -> (r: Option<u8>)
    ensures
        r == hex_value(b),
{
    if 0x30 <= b && b <= 0x39 {
        Some(b - 0x30)
    } else if 0x61 <= b && b <= 0x66 {
        Some(b - 0x57)
    } else if 0x41 <= b && b <= 0x46 {
        Some(b - 0x37)
    } else {
        None
    }
}

/// Appends the string literal for `s`, quotes included, to `out`.
pub fn write_quoted(s: &[u8], out: &mut Vec<u8>)
    ensures
        final(out)@ == old(out)@ + quoted(s@),
{
    out.push(QUOTE);
    let ghost start = out@;
    let mut i: usize = 0;
    assert(s@.subrange(0, s@.len() as int) =~= s@);
    while i < s.len()
        invariant
            i <= s.len(),
            start == old(out)@ + seq![QUOTE],
            out@ + escape(s@.subrange(i as int, s@.len() as int)) == start + escape(s@),
        decreases s.len() - i,
    {
        let b = s[i];
        proof {
            let t = s@.subrange(i as int, s@.len() as int);
            assert(t.drop_first() =~= s@.subrange(i + 1, s@.len() as int));
            assert(t[0] == b);
        }
        if b == QUOTE {
            out.push(BACKSLASH);
            out.push(QUOTE);
        } else if b == BACKSLASH {
            out.push(BACKSLASH);
            out.push(BACKSLASH);
        } else if b == 0x08 {
            out.push(BACKSLASH);
            out.push(0x62);
        } else if b == 0x09 {
            out.push(BACKSLASH);
            out.push(0x74);
        } else if b == 0x0a {
            out.push(BACKSLASH);
            out.push(0x6e);
        } else if b == 0x0c {
            out.push(BACKSLASH);
            out.push(0x66);
        } else if b == 0x0d {
            out.push(BACKSLASH);
            out.push(0x72);
        } else if b < 0x20 {
            out.push(BACKSLASH);
            out.push(0x75);
            out.push(0x30);
            out.push(0x30);
            out.push(hex_digit_exec(b / 16));
            out.push(hex_digit_exec(b % 16));
        } else {
            out.push(b);
        }
        proof {
            let t = s@.subrange(i as int, s@.len() as int);
            assert(escape(t) == escape_byte(b) + escape(s@.subrange(i + 1, s@.len() as int)));
        }
        i = i + 1;
        assert(out@ + escape(s@.subrange(i as int, s@.len() as int)) =~= start + escape(s@));
    }
    assert(s@.subrange(s@.len() as int, s@.len() as int) =~= Seq::<u8>::empty());
    assert(escape(Seq::<u8>::empty()) =~= Seq::<u8>::empty());
    out.push(QUOTE);
    assert(final(out)@ =~= old(out)@ + quoted(s@));
}

/// Reads a string literal's content starting at `i`, just after its opening quote.
pub fn read_quoted(s: &[u8], i: usize) -> (r: Option<(Vec<u8>, usize)>)
    ensures
        match unescape_from(s@, i as int, seq![]) {
            Some((v, e)) => r matches Some((w, f)) && w@ == v && f == e,
            None => r is None,
        },
{
    let mut out: Vec<u8> = Vec::new();
    let mut j: usize = i;
    loop
        invariant
            unescape_from(s@, j as int, out@) == unescape_from(s@, i as int, seq![]),
        decreases s.len() - j,
    {
        if j >= s.len() {
            return None;
        }
        let b = s[j];
        if b == QUOTE {
            return Some((out, j + 1));
        } else if b < 0x20 {
            return None;
        } else if b == BACKSLASH {
            if j + 1 >= s.len() {
                return None;
            }
            let c = s[j + 1];
            if c == QUOTE || c == BACKSLASH || c == 0x2f {
                out.push(c);
                j = j + 2;
            } else if c == 0x62 {
                out.push(0x08);
                j = j + 2;
            } else if c == 0x66 {
                out.push(0x0c);
                j = j + 2;
            } else if c == 0x6e {
                out.push(0x0a);
                j = j + 2;
            } else if c == 0x72 {
                out.push(0x0d);
                j = j + 2;
            } else if c == 0x74 {
                out.push(0x09);
                j = j + 2;
            } else if s.len() - j >= 6 && c == 0x75 && s[j + 2] == 0x30 && s[j + 3] == 0x30 {
                let hi = hex_value_exec(s[j + 4]);
                let lo = hex_value_exec(s[j + 5]);
                match (hi, lo) {
                    (Some(h), Some(l)) => {
                        if h < 8 {
                            out.push(h * 16 + l);
                            j = j + 6;
                        } else {
                            return None;
                        }
                    },
                    _ => {
                        return None;
                    },
                }
            } else {
                return None;
            }
        } else {
            out.push(b);
            j = j + 1;
        }
    }
}

} // verus!
