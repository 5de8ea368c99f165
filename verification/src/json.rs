//! JSON text encoding for the library's response payloads.
//!
//! Strings are escaped the way the payloads appear on the wire: quotation
//! mark and backslash get a backslash escape, the five control characters
//! with short names get those, every other control character becomes a
//! `\u00` escape with two lowercase hex digits, and nothing else changes.

use vstd::prelude::*;
use vstd::string::StrSliceExecFns;
use vstd::string::StringExecFns;

use crate::text::spec_decimal;

verus! {

/// The character for one hexadecimal digit, lowercase.
pub open spec fn spec_hex_digit(d: int) -> char
    recommends
        0 <= d < 16,
{
    if d == 0 {
        '0'
    } else if d == 1 {
        '1'
    } else if d == 2 {
        '2'
    } else if d == 3 {
        '3'
    } else if d == 4 {
        '4'
    } else if d == 5 {
        '5'
    } else if d == 6 {
        '6'
    } else if d == 7 {
        '7'
    } else if d == 8 {
        '8'
    } else if d == 9 {
        '9'
    } else if d == 10 {
        'a'
    } else if d == 11 {
        'b'
    } else if d == 12 {
        'c'
    } else if d == 13 {
        'd'
    } else if d == 14 {
        'e'
    } else {
        'f'
    }
}

/// How one character appears inside a JSON string literal.
pub open spec fn spec_escape_char(c: char) -> Seq<char> {
    if c == '"' {
        seq!['\\', '"']
    } else if c == '\\' {
        seq!['\\', '\\']
    } else if (c as u32) < 0x20 {
        if c == '\u{8}' {
            seq!['\\', 'b']
        } else if c == '\t' {
            seq!['\\', 't']
        } else if c == '\n' {
            seq!['\\', 'n']
        } else if c == '\u{c}' {
            seq!['\\', 'f']
        } else if c == '\r' {
            seq!['\\', 'r']
        } else {
            seq!['\\', 'u', '0', '0', spec_hex_digit(c as u32 as int / 16), spec_hex_digit(
                c as u32 as int % 16,
            )]
        }
    } else {
        seq![c]
    }
}

/// A character sequence with every character escaped for JSON.
pub open spec fn spec_escape(s: Seq<char>) -> Seq<char>
    decreases s.len(),
{
    if s.len() == 0 {
        Seq::empty()
    } else {
        spec_escape(s.drop_last()) + spec_escape_char(s.last())
    }
}

/// A JSON string literal: quoted and escaped.
pub open spec fn spec_json_string(s: Seq<char>) -> Seq<char> {
    "\""@ + spec_escape(s) + "\""@
}

/// A JSON array of string literals.
pub open spec fn spec_json_string_array(items: Seq<Seq<char>>) -> Seq<char> {
    "["@ + spec_json_string_array_items(items) + "]"@
}

/// The comma-separated items of a JSON array of string literals.
pub open spec fn spec_json_string_array_items(items: Seq<Seq<char>>) -> Seq<char>
    decreases items.len(),
{
    if items.len() == 0 {
        Seq::empty()
    } else if items.len() == 1 {
        spec_json_string(items[0])
    } else {
        spec_json_string_array_items(items.drop_last()) + ","@ + spec_json_string(items.last())
    }
}

/// A JSON object whose members are string-valued, in the order given.
pub open spec fn spec_json_string_object(pairs: Seq<(Seq<char>, Seq<char>)>) -> Seq<char> {
    "{"@ + spec_json_string_object_members(pairs) + "}"@
}

/// The comma-separated members of a JSON object of string pairs.
pub open spec fn spec_json_string_object_members(pairs: Seq<(Seq<char>, Seq<char>)>) -> Seq<char>
    decreases pairs.len(),
{
    if pairs.len() == 0 {
        Seq::empty()
    } else if pairs.len() == 1 {
        spec_json_string(pairs[0].0) + ":"@ + spec_json_string(pairs[0].1)
    } else {
        spec_json_string_object_members(pairs.drop_last()) + ","@ + spec_json_string(
            pairs.last().0,
        ) + ":"@ + spec_json_string(pairs.last().1)
    }
}

fn hex_digit_str(d: u32) -> (r: &'static str)
    requires
        d < 16,
    ensures
        r@ == seq![spec_hex_digit(d as int)],
{
    let r: &'static str = match d {
        0 => "0",
        1 => "1",
        2 => "2",
        3 => "3",
        4 => "4",
        5 => "5",
        6 => "6",
        7 => "7",
        8 => "8",
        9 => "9",
        10 => "a",
        11 => "b",
        12 => "c",
        13 => "d",
        14 => "e",
        _ => "f",
    };
    proof {
        reveal_strlit("0");
        reveal_strlit("1");
        reveal_strlit("2");
        reveal_strlit("3");
        reveal_strlit("4");
        reveal_strlit("5");
        reveal_strlit("6");
        reveal_strlit("7");
        reveal_strlit("8");
        reveal_strlit("9");
        reveal_strlit("a");
        reveal_strlit("b");
        reveal_strlit("c");
        reveal_strlit("d");
        reveal_strlit("e");
        reveal_strlit("f");
        assert(r@ =~= seq![spec_hex_digit(d as int)]);
    }
    r
}

/// Appends one escaped character to `out`.
fn append_escaped_char(out: &mut String, piece: &str, c: char)
    requires
        piece@ == seq![c],
    ensures
        final(out)@ == old(out)@ + spec_escape_char(c),
{
    if c == '"' {
        out.append("\\\"");
        proof {
            reveal_strlit("\\\"");
            assert(out@ =~= old(out)@ + spec_escape_char(c));
        }
    } else if c == '\\' {
        out.append("\\\\");
        proof {
            reveal_strlit("\\\\");
            assert(out@ =~= old(out)@ + spec_escape_char(c));
        }
    } else if (c as u32) < 0x20 {
        if c == '\u{8}' {
            out.append("\\b");
            proof {
                reveal_strlit("\\b");
                assert(out@ =~= old(out)@ + spec_escape_char(c));
            }
        } else if c == '\t' {
            out.append("\\t");
            proof {
                reveal_strlit("\\t");
                assert(out@ =~= old(out)@ + spec_escape_char(c));
            }
        } else if c == '\n' {
            out.append("\\n");
            proof {
                reveal_strlit("\\n");
                assert(out@ =~= old(out)@ + spec_escape_char(c));
            }
        } else if c == '\u{c}' {
            out.append("\\f");
            proof {
                reveal_strlit("\\f");
                assert(out@ =~= old(out)@ + spec_escape_char(c));
            }
        } else if c == '\r' {
            out.append("\\r");
            proof {
                reveal_strlit("\\r");
                assert(out@ =~= old(out)@ + spec_escape_char(c));
            }
        } else {
            let code = c as u32;
            out.append("\\u00");
            out.append(hex_digit_str(code / 16));
            out.append(hex_digit_str(code % 16));
            proof {
                reveal_strlit("\\u00");
                assert(out@ =~= old(out)@ + spec_escape_char(c));
            }
        }
    } else {
        out.append(piece);
        proof {
            assert(out@ =~= old(out)@ + spec_escape_char(c));
        }
    }
}

/// Appends `s` escaped for the inside of a JSON string literal.
fn append_escaped(out: &mut String, s: &str)
    ensures
        final(out)@ == old(out)@ + spec_escape(s@),
{
    let n = s.unicode_len();
    let mut i: usize = 0;
    while i < n
        invariant
            0 <= i <= n,
            n == s@.len(),
            out@ == old(out)@ + spec_escape(s@.subrange(0, i as int)),
        decreases n - i,
    {
        let c = s.get_char(i);
        let piece = s.substring_char(i, i + 1);
        proof {
            assert(piece@ =~= seq![c]);
        }
        append_escaped_char(out, piece, c);
        proof {
            assert(s@.subrange(0, i + 1 as int).drop_last() =~= s@.subrange(0, i as int));
            assert(s@.subrange(0, i + 1 as int).last() == c);
        }
        i = i + 1;
    }
    proof {
        assert(s@.subrange(0, n as int) =~= s@);
    }
}

/// Appends `s` as a JSON string literal.
pub fn append_json_string(out: &mut String, s: &str)
    ensures
        final(out)@ == old(out)@ + spec_json_string(s@),
{
    out.append("\"");
    append_escaped(out, s);
    out.append("\"");
    proof {
        assert(out@ =~= old(out)@ + spec_json_string(s@));
    }
}

/// Appends `items` as a JSON array of string literals.
pub fn append_json_string_array(out: &mut String, items: &Vec<String>)
    ensures
        final(out)@ == old(out)@ + spec_json_string_array(items.deep_view()),
{
    out.append("[");
    let n = items.len();
    let mut i: usize = 0;
    while i < n
        invariant
            0 <= i <= n,
            n == items@.len(),
            items.deep_view().len() == n,
            forall|j: int| 0 <= j < n ==> items.deep_view()[j] == items@[j]@,
            out@ == old(out)@ + "["@ + spec_json_string_array_items(
                items.deep_view().subrange(0, i as int),
            ),
        decreases n - i,
    {
        if i > 0 {
            out.append(",");
        }
        append_json_string(out, items[i].as_str());
        proof {
            let dv = items.deep_view();
            assert(dv.subrange(0, i + 1 as int).drop_last() =~= dv.subrange(0, i as int));
            assert(dv.subrange(0, i + 1 as int).last() == items@[i as int]@);
            if i == 0 {
                assert(spec_json_string_array_items(dv.subrange(0, 1)) == spec_json_string(
                    dv.subrange(0, 1)[0],
                ));
                assert(out@ =~= old(out)@ + "["@ + spec_json_string_array_items(
                    dv.subrange(0, i + 1 as int),
                ));
            } else {
                assert(out@ =~= old(out)@ + "["@ + spec_json_string_array_items(
                    dv.subrange(0, i + 1 as int),
                ));
            }
        }
        i = i + 1;
    }
    out.append("]");
    proof {
        assert(items.deep_view().subrange(0, n as int) =~= items.deep_view());
        assert(out@ =~= old(out)@ + spec_json_string_array(items.deep_view()));
    }
}

/// Appends `pairs` as a JSON object with string members, in list order.
pub fn append_json_string_object(out: &mut String, pairs: &Vec<(String, String)>)
    ensures
        final(out)@ == old(out)@ + spec_json_string_object(pairs.deep_view()),
{
    out.append("{");
    let n = pairs.len();
    let mut i: usize = 0;
    while i < n
        invariant
            0 <= i <= n,
            n == pairs@.len(),
            pairs.deep_view().len() == n,
            forall|j: int| 0 <= j < n ==> #[trigger] pairs.deep_view()[j] == (
            pairs@[j].0@,
            pairs@[j].1@,
            ),
            out@ == old(out)@ + "{"@ + spec_json_string_object_members(
                pairs.deep_view().subrange(0, i as int),
            ),
        decreases n - i,
    {
        if i > 0 {
            out.append(",");
        }
        append_json_string(out, pairs[i].0.as_str());
        out.append(":");
        append_json_string(out, pairs[i].1.as_str());
        proof {
            let dv = pairs.deep_view();
            assert(dv.subrange(0, i + 1 as int).drop_last() =~= dv.subrange(0, i as int));
            assert(dv.subrange(0, i + 1 as int).last() == dv[i as int]);
            if i == 0 {
                assert(spec_json_string_object_members(dv.subrange(0, 1)) == spec_json_string(
                    dv.subrange(0, 1)[0].0,
                ) + ":"@ + spec_json_string(dv.subrange(0, 1)[0].1));
                assert(out@ =~= old(out)@ + "{"@ + spec_json_string_object_members(
                    dv.subrange(0, i + 1 as int),
                ));
            } else {
                assert(out@ =~= old(out)@ + "{"@ + spec_json_string_object_members(
                    dv.subrange(0, i + 1 as int),
                ));
            }
        }
        i = i + 1;
    }
    out.append("}");
    proof {
        assert(pairs.deep_view().subrange(0, n as int) =~= pairs.deep_view());
        assert(out@ =~= old(out)@ + spec_json_string_object(pairs.deep_view()));
    }
}

/// Appends `n` as a JSON number in decimal notation.
pub fn append_json_number(out: &mut String, n: u128)
    ensures
        final(out)@ == old(out)@ + spec_decimal(n as int),
{
    let digits = crate::text::decimal_string(n);
    out.append(digits.as_str());
}

} // verus!
