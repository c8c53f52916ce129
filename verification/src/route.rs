//! Finding the IPv4 default gateway in Linux's routing table
//! (`/proc/net/route`): whitespace-separated columns, a header line first,
//! the default route the one whose destination is `00000000`, and its
//! gateway a hexadecimal number whose bytes run least significant first.

use crate::completions::{lines, lines_of};
use crate::text::{is_space, space, str_eq, views};
use vstd::prelude::*;

verus! {

/// The words of `s` (`str::split_whitespace`): its maximal runs of
/// characters that are not white space, in order.
pub open spec fn words(s: Seq<char>) -> Seq<Seq<char>>
    decreases s.len(),
{
    if s.len() == 0 {
        Seq::empty()
    } else {
        let w = words(s.drop_last());
        if is_space(s.last()) {
            w
        } else if s.len() >= 2 && !is_space(s[s.len() - 2]) {
            w.update(w.len() - 1, w.last().push(s.last()))
        } else {
            w.push(seq![s.last()])
        }
    }
}

proof fn lemma_words_nonempty(s: Seq<char>)
    requires
        s.len() > 0,
        !is_space(s.last()),
    ensures
        words(s).len() > 0,
    decreases s.len(),
{
    if s.len() >= 2 && !is_space(s[s.len() - 2]) {
        assert(s.drop_last().last() == s[s.len() - 2]);
        lemma_words_nonempty(s.drop_last());
    }
}

/// The words of `s` (see `words`).
pub fn split_words(s: &str) -> (r: Vec<String>)
    ensures
        views(r@) == words(s@),
{
    let n = s.unicode_len();
    let mut out: Vec<String> = Vec::new();
    let mut i: usize = 0;
    assert(s@.take(0) =~= Seq::<char>::empty());
    assert(views(out@) =~= words(s@.take(0)));
    while i < n
        invariant
            n == s@.len(),
            i <= n,
            views(out@) == words(s@.take(i as int)),
        decreases n - i,
    {
        let c = s.get_char(i);
        let ghost before = out@;
        let ghost t = s@.take(i + 1);
        assert(t.drop_last() =~= s@.take(i as int));
        assert(t.last() == c);
        if space(c) {
        } else if i > 0 && !space(s.get_char(i - 1)) {
            assert(t[t.len() - 2] == s@[i - 1]);
            proof {
                lemma_words_nonempty(s@.take(i as int));
                assert(s@.take(i as int).last() == s@[i - 1]);
            }
            let k = out.len() - 1;
            let mut last = out.remove(k);
            crate::text::push_char(&mut last, c);
            out.push(last);
            assert(views(out@) =~= words(t));
        } else {
            let mut word = String::new();
            crate::text::push_char(&mut word, c);
            out.push(word);
            assert(views(out@) =~= words(t));
        }
        i = i + 1;
    }
    assert(s@.take(n as int) =~= s@);
    out
}

/// The value of a hexadecimal digit, if `c` is one.
pub open spec fn hex_digit(c: char) -> Option<nat> {
    if '0' <= c && c <= '9' {
        Some((c as nat - '0' as nat) as nat)
    } else if 'a' <= c && c <= 'f' {
        Some((c as nat - 'a' as nat + 10) as nat)
    } else if 'A' <= c && c <= 'F' {
        Some((c as nat - 'A' as nat + 10) as nat)
    } else {
        None
    }
}

/// The value of `s` as hexadecimal digits, if every character is one.
pub open spec fn hex_value(s: Seq<char>) -> Option<nat>
    decreases s.len(),
{
    if s.len() == 0 {
        Some(0)
    } else {
        match (hex_value(s.drop_last()), hex_digit(s.last())) {
            (Some(v), Some(d)) => Some(v * 16 + d),
            _ => None,
        }
    }
}

/// `u32::from_str_radix(s, 16)`: an optional `+`, then at least one
/// hexadecimal digit, worth at most `u32::MAX`.
pub open spec fn parse_hex32(s: Seq<char>) -> Option<u32> {
    let digits = if s.len() > 0 && s[0] == '+' {
        s.drop_first()
    } else {
        s
    };
    if digits.len() == 0 {
        None
    } else {
        match hex_value(digits) {
            Some(v) => if v <= u32::MAX {
                Some(v as u32)
            } else {
                None
            },
            None => None,
        }
    }
}

fn hex_digit_of(c: char) -> (r: Option<u32>)
    ensures
        match hex_digit(c) {
            Some(d) => r == Some(d as u32),
            None => r is None,
        },
{
    if '0' <= c && c <= '9' {
        Some((c as u32) - ('0' as u32))
    } else if 'a' <= c && c <= 'f' {
        Some((c as u32) - ('a' as u32) + 10)
    } else if 'A' <= c && c <= 'F' {
        Some((c as u32) - ('A' as u32) + 10)
    } else {
        None
    }
}

proof fn lemma_hex_value_grows(s: Seq<char>, t: Seq<char>)
    requires
        s.len() <= t.len(),
        s == t.take(s.len() as int),
        hex_value(t) is Some,
    ensures
        hex_value(s) is Some,
        hex_value(s)->0 <= hex_value(t)->0,
    decreases t.len(),
{
    if s.len() < t.len() {
        assert(t.drop_last().take(s.len() as int) =~= s);
        lemma_hex_value_grows(s, t.drop_last());
    } else {
        assert(s =~= t);
    }
}

/// Reads hexadecimal text as `u32::from_str_radix(s, 16)` does.
pub fn hex32(s: &str) -> (r: Option<u32>)
    ensures
        r == parse_hex32(s@),
{
    let n = s.unicode_len();
    let start: usize = if n > 0 && s.get_char(0) == '+' {
        1
    } else {
        0
    };
    let ghost digits = s@.skip(start as int);
    proof {
        if start == 1 {
            assert(digits =~= s@.drop_first());
        } else {
            assert(digits =~= s@);
        }
    }
    if start == n {
        return None;
    }
    let mut acc: u64 = 0;
    let mut i: usize = start;
    assert(digits.take(0) =~= Seq::<char>::empty());
    while i < n
        invariant
            start <= i <= n,
            n == s@.len(),
            digits == s@.skip(start as int),
            digits == (if s@.len() > 0 && s@[0] == '+' {
                s@.drop_first()
            } else {
                s@
            }),
            digits.len() > 0,
            hex_value(digits.take(i - start)) == Some(acc as nat),
            acc <= u32::MAX,
        decreases n - i,
    {
        let c = s.get_char(i);
        let ghost t = digits.take(i - start + 1);
        assert(t.drop_last() =~= digits.take(i - start));
        assert(t.last() == c);
        match hex_digit_of(c) {
            None => {
                proof {
                    assert(hex_value(t) is None);
                    if hex_value(digits) is Some {
                        lemma_hex_value_grows(t, digits);
                    }
                }
                return None;
            },
            Some(d) => {
                let next = acc * 16 + (d as u64);
                if next > u32::MAX as u64 {
                    proof {
                        assert(hex_value(t) == Some(next as nat));
                        if hex_value(digits) is Some {
                            lemma_hex_value_grows(t, digits);
                        }
                    }
                    return None;
                }
                acc = next;
            },
        }
        i = i + 1;
    }
    assert(digits.take(n - start) =~= digits);
    Some(acc as u32)
}

/// The gateway of the default route among routing-table lines after the
/// header, as `/proc/net/route` gives it: reading stops with nothing at a
/// line of fewer than three columns, and at the first line whose
/// destination is `00000000` (its gateway, or nothing when that is not a
/// hexadecimal `u32`).
pub open spec fn default_route_in(rows: Seq<Seq<char>>) -> Option<u32>
    decreases rows.len(),
{
    if rows.len() == 0 {
        None
    } else {
        let f = words(rows[0]);
        if f.len() < 3 {
            None
        } else if f[1] == "00000000"@ {
            parse_hex32(f[2])
        } else {
            default_route_in(rows.drop_first())
        }
    }
}

/// The default gateway a routing table names, as the raw number it
/// writes: see `default_route_in`, applied to the lines after the header.
pub open spec fn default_route(table: Seq<char>) -> Option<u32> {
    let ls = lines_of(table);
    if ls.len() == 0 {
        None
    } else {
        default_route_in(ls.drop_first())
    }
}

/// An IPv4 address from a number whose bytes run least significant first.
pub open spec fn le_octets(raw: u32) -> (u8, u8, u8, u8) {
    (
        (raw % 256) as u8,
        ((raw / 256) % 256) as u8,
        ((raw / 0x1_0000) % 256) as u8,
        (raw / 0x100_0000) as u8,
    )
}

/// The default gateway's IPv4 address in a Linux routing table, if it
/// names one (see `default_route`).
pub fn default_gateway(table: &str) -> (r: Option<(u8, u8, u8, u8)>)
    ensures
        match default_route(table@) {
            Some(raw) => r == Some(le_octets(raw)),
            None => r is None,
        },
{
    let rows = lines(table);
    let n = rows.len();
    if n == 0 {
        return None;
    }
    let ghost all = lines_of(table@);
    let mut i: usize = 1;
    assert(all.drop_first() =~= all.skip(1));
    while i < n
        invariant
            n == all.len(),
            all == lines_of(table@),
            views(rows@) == all,
            1 <= i <= n,
            default_route_in(all.drop_first()) == default_route_in(all.skip(i as int)),
        decreases n - i,
    {
        assert(all.skip(i as int)[0] == rows@[i as int]@);
        assert(all.skip(i as int).drop_first() =~= all.skip(i + 1));
        let fields = split_words(rows[i].as_str());
        let ghost rest = all.skip(i as int);
        assert(rest[0] == rows@[i as int]@);
        assert(words(rest[0]) == views(fields@));
        assert(views(fields@).len() == fields.len());
        if fields.len() < 3 {
            assert(default_route_in(rest) is None);
            return None;
        }
        assert(views(fields@)[1] == fields@[1]@);
        if str_eq(fields[1].as_str(), "00000000") {
            assert(views(fields@)[2] == fields@[2]@);
            assert(default_route_in(rest) == parse_hex32(fields@[2]@));
            return match hex32(fields[2].as_str()) {
                Some(raw) => Some(
                    (
                        (raw % 256) as u8,
                        ((raw / 256) % 256) as u8,
                        ((raw / 0x1_0000) % 256) as u8,
                        (raw / 0x100_0000) as u8,
                    ),
                ),
                None => None,
            };
        }
        i = i + 1;
    }
    None
}

} // verus!
