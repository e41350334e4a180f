//! A JSON encoding of stored rows, for the export artifact: one object per
//! record, keys in field order, strings escaped.

use vstd::prelude::*;
use crate::digits::{dec_of, u64_to_dec};
use crate::record::{NameTagDB, NameTagDBView};
use crate::text::{chars_of, chars_to_string};

verus! {

/// The character for one hexadecimal digit value, lower-case.
pub open spec fn hex_digit(n: nat) -> char {
    if n == 0 {
        '0'
    } else if n == 1 {
        '1'
    } else if n == 2 {
        '2'
    } else if n == 3 {
        '3'
    } else if n == 4 {
        '4'
    } else if n == 5 {
        '5'
    } else if n == 6 {
        '6'
    } else if n == 7 {
        '7'
    } else if n == 8 {
        '8'
    } else if n == 9 {
        '9'
    } else if n == 10 {
        'a'
    } else if n == 11 {
        'b'
    } else if n == 12 {
        'c'
    } else if n == 13 {
        'd'
    } else if n == 14 {
        'e'
    } else {
        'f'
    }
}

/// How one character stands inside a JSON string literal: quote and
/// backslash are backslash-escaped, control characters become `\u00XX`,
/// everything else stands as itself.
pub open spec fn esc_char(c: char) -> Seq<char> {
    if c == '"' {
        seq!['\\', '"']
    } else if c == '\\' {
        seq!['\\', '\\']
    } else if (c as u32) < 0x20 {
        seq![
            '\\',
            'u',
            '0',
            '0',
            hex_digit(((c as u32) / 16) as nat),
            hex_digit(((c as u32) % 16) as nat),
        ]
    } else {
        seq![c]
    }
}

/// A whole character sequence escaped, character by character, in order.
pub open spec fn esc(s: Seq<char>) -> Seq<char>
    decreases s.len(),
{
    if s.len() == 0 {
        Seq::empty()
    } else {
        esc(s.drop_last()) + esc_char(s.last())
    }
}

/// A JSON string literal holding the given characters.
pub open spec fn json_str(s: Seq<char>) -> Seq<char> {
    seq!['"'] + esc(s) + seq!['"']
}

/// A JSON integer literal.
pub open spec fn json_int(n: int) -> Seq<char> {
    if n < 0 {
        seq!['-'] + dec_of((-n) as nat)
    } else {
        dec_of(n as nat)
    }
}

/// A JSON boolean literal.
pub open spec fn json_bool(b: bool) -> Seq<char> {
    if b {
        "true"@
    } else {
        "false"@
    }
}

/// The JSON object encoding of one stored row.
pub open spec fn json_of(r: NameTagDBView) -> Seq<char> {
    "{\"id\":"@ + json_str(r.id) + ",\"first_name\":"@ + json_str(r.first_name)
        + ",\"last_name\":"@ + json_str(r.last_name) + ",\"grad_year\":"@ + json_int(r.grad_year)
        + ",\"badge\":"@ + json_bool(r.badge) + ",\"creation_date\":"@ + json_str(r.creation_date)
        + "}"@
}

fn hex_digit_exec(n: u32) -> (c: char)
    requires
        n < 16,
    ensures
        c == hex_digit(n as nat),
{
    if n == 0 {
        '0'
    } else if n == 1 {
        '1'
    } else if n == 2 {
        '2'
    } else if n == 3 {
        '3'
    } else if n == 4 {
        '4'
    } else if n == 5 {
        '5'
    } else if n == 6 {
        '6'
    } else if n == 7 {
        '7'
    } else if n == 8 {
        '8'
    } else if n == 9 {
        '9'
    } else if n == 10 {
        'a'
    } else if n == 11 {
        'b'
    } else if n == 12 {
        'c'
    } else if n == 13 {
        'd'
    } else if n == 14 {
        'e'
    } else {
        'f'
    }
}

/// Append a literal's characters.
fn push_lit(out: &mut Vec<char>, lit: &str)
    ensures
        final(out)@ == old(out)@ + lit@,
{
    let mut cs = chars_of(lit);
    out.append(&mut cs);
}

/// Append a JSON string literal holding the characters of `s`.
fn push_json_str(out: &mut Vec<char>, s: &String)
    ensures
        final(out)@ == old(out)@ + json_str(s@),
{
    let ghost base = out@;
    out.push('"');
    proof {
        assert(out@ =~= base + seq!['"']);
    }
    let cs = chars_of(s.as_str());
    let n = cs.len();
    let mut i: usize = 0;
    while i < n
        invariant
            i <= n,
            n == cs.len(),
            cs@ == s@,
            out@ == base + seq!['"'] + esc(s@.subrange(0, i as int)),
        decreases n - i,
    {
        let ghost sofar = out@;
        let ghost pre = s@.subrange(0, i as int);
        let ghost post = s@.subrange(0, i + 1int);
        let c = cs[i];
        if c == '"' {
            out.push('\\');
            out.push('"');
        } else if c == '\\' {
            out.push('\\');
            out.push('\\');
        } else {
            let u = c as u32;
            if u < 0x20 {
                out.push('\\');
                out.push('u');
                out.push('0');
                out.push('0');
                out.push(hex_digit_exec(u / 16));
                out.push(hex_digit_exec(u % 16));
            } else {
                out.push(c);
            }
        }
        proof {
            assert(out@ =~= sofar + esc_char(c));
            assert(post.drop_last() =~= pre);
            assert(post.last() == c);
            assert(esc(post) == esc(pre) + esc_char(c));
            assert(out@ =~= base + seq!['"'] + esc(post));
        }
        i = i + 1;
    }
    proof {
        assert(s@.subrange(0, n as int) =~= s@);
    }
    out.push('"');
    proof {
        assert(out@ =~= base + (seq!['"'] + esc(s@) + seq!['"']));
    }
}

/// Append a JSON integer literal for a sixty-four-bit signed value.
fn push_json_int(out: &mut Vec<char>, n: i64)
    ensures
        final(out)@ == old(out)@ + json_int(n as int),
{
    let ghost base = out@;
    if n < 0 {
        out.push('-');
        let mag: u64 = (-(n as i128)) as u64;
        proof {
            assert(mag as nat == (-(n as int)) as nat);
        }
        let mut d = u64_to_dec(mag);
        out.append(&mut d);
        proof {
            assert(out@ =~= base + (seq!['-'] + dec_of((-(n as int)) as nat)));
        }
    } else {
        let mut d = u64_to_dec(n as u64);
        out.append(&mut d);
    }
}

/// Encode one stored row as a JSON object string.
pub fn to_json(r: &NameTagDB) -> (s: String)
    ensures
        s@ == json_of(r@),
{
    let mut out: Vec<char> = Vec::new();
    push_lit(&mut out, "{\"id\":");
    proof {
        assert(out@ == Seq::<char>::empty() + "{\"id\":"@);
        assert(out@ =~= "{\"id\":"@);
    }
    push_json_str(&mut out, &r.id);
    push_lit(&mut out, ",\"first_name\":");
    push_json_str(&mut out, &r.first_name);
    push_lit(&mut out, ",\"last_name\":");
    push_json_str(&mut out, &r.last_name);
    push_lit(&mut out, ",\"grad_year\":");
    push_json_int(&mut out, r.grad_year);
    push_lit(&mut out, ",\"badge\":");
    if r.badge {
        push_lit(&mut out, "true");
    } else {
        push_lit(&mut out, "false");
    }
    push_lit(&mut out, ",\"creation_date\":");
    push_json_str(&mut out, &r.creation_date);
    push_lit(&mut out, "}");
    proof {
        assert(out@ == json_of(r@));
    }
    chars_to_string(&out)
}

} // verus!
