//! The parser: one free-form sign-in line becomes a validated record or a
//! rejection. Two mutually exclusive formats, selected by a trailing `%`
//! sentinel on the case-folded line: badge format `first$last$year%` and
//! normal format `first last year` (whitespace-separated).

use vstd::prelude::*;
use crate::text::{is_wspace, is_wspace_exec, lower_of, lowercase, chars_of, chars_to_string,
    vec_range};

verus! {

/// Rejection of a malformed sign-in line; the caller drops the input.
#[derive(Clone, Copy, Debug, PartialEq, Eq, Structural)]
pub enum ParseError {
    DeserializeError,
}

/// A validated sign-in, before it is given an identity.
pub struct NameTag {
    pub first_name: String,
    pub last_name: String,
    pub grad_year: u16,
    pub badge: bool,
}

/// The mathematical content of a `NameTag`.
pub ghost struct NameTagView {
    pub first_name: Seq<char>,
    pub last_name: Seq<char>,
    pub grad_year: u16,
    pub badge: bool,
}

impl View for NameTag {
    type V = NameTagView;

    open spec fn view(&self) -> NameTagView {
        NameTagView {
            first_name: self.first_name@,
            last_name: self.last_name@,
            grad_year: self.grad_year,
            badge: self.badge,
        }
    }
}

/// Length of the leading run of non-whitespace characters.
pub open spec fn non_ws_prefix(s: Seq<char>) -> nat
    decreases s.len(),
{
    if s.len() == 0 || is_wspace(s[0]) {
        0
    } else {
        1 + non_ws_prefix(s.drop_first())
    }
}

pub proof fn lemma_non_ws_prefix_le(s: Seq<char>)
    ensures
        non_ws_prefix(s) <= s.len(),
    decreases s.len(),
{
    if !(s.len() == 0 || is_wspace(s[0])) {
        lemma_non_ws_prefix_le(s.drop_first());
    }
}

/// A leading all-non-whitespace stretch that ends at the end or at a
/// whitespace character is exactly the leading run.
pub proof fn lemma_non_ws_prefix_scan(s: Seq<char>, k: int)
    requires
        0 <= k <= s.len(),
        forall|j: int| 0 <= j < k ==> !is_wspace(s[j]),
        k == s.len() || is_wspace(s[k]),
    ensures
        non_ws_prefix(s) == k,
    decreases s.len(),
{
    if k == 0 {
    } else {
        assert(!is_wspace(s[0]));
        let t = s.drop_first();
        assert forall|j: int| 0 <= j < k - 1 implies !is_wspace(t[j]) by {
            assert(t[j] == s[j + 1]);
        }
        if k < s.len() {
            assert(t[k - 1] == s[k]);
        }
        lemma_non_ws_prefix_scan(t, k - 1);
    }
}

/// The whitespace-separated tokens of a line, in order; runs of whitespace
/// separate tokens and contribute none of their own.
pub open spec fn tokens_of(s: Seq<char>) -> Seq<Seq<char>>
    decreases s.len(),
    when s.len() >= 0
    via tokens_of_decreases
{
    if s.len() == 0 {
        Seq::empty()
    } else if is_wspace(s[0]) {
        tokens_of(s.drop_first())
    } else {
        let k = non_ws_prefix(s) as int;
        seq![s.subrange(0, k)] + tokens_of(s.subrange(k, s.len() as int))
    }
}

#[via_fn]
proof fn tokens_of_decreases(s: Seq<char>) {
    if s.len() > 0 && !is_wspace(s[0]) {
        lemma_non_ws_prefix_le(s);
        assert(non_ws_prefix(s) >= 1);
    }
}

/// Length of the leading run of characters other than `$`.
pub open spec fn until_dollar(s: Seq<char>) -> nat
    decreases s.len(),
{
    if s.len() == 0 || s[0] == '$' {
        0
    } else {
        1 + until_dollar(s.drop_first())
    }
}

pub proof fn lemma_until_dollar_le(s: Seq<char>)
    ensures
        until_dollar(s) <= s.len(),
    decreases s.len(),
{
    if !(s.len() == 0 || s[0] == '$') {
        lemma_until_dollar_le(s.drop_first());
    }
}

pub proof fn lemma_until_dollar_scan(s: Seq<char>, k: int)
    requires
        0 <= k <= s.len(),
        forall|j: int| 0 <= j < k ==> s[j] != '$',
        k == s.len() || s[k] == '$',
    ensures
        until_dollar(s) == k,
    decreases s.len(),
{
    if k == 0 {
    } else {
        assert(s[0] != '$');
        let t = s.drop_first();
        assert forall|j: int| 0 <= j < k - 1 implies t[j] != '$' by {
            assert(t[j] == s[j + 1]);
        }
        if k < s.len() {
            assert(t[k - 1] == s[k]);
        }
        lemma_until_dollar_scan(t, k - 1);
    }
}

/// The `$`-separated fields of a line, empties kept: a line with no `$`
/// is one single field.
pub open spec fn dollar_fields(s: Seq<char>) -> Seq<Seq<char>>
    decreases s.len(),
    when s.len() >= 0
    via dollar_fields_decreases
{
    let k = until_dollar(s) as int;
    if k == s.len() {
        seq![s]
    } else {
        seq![s.subrange(0, k)] + dollar_fields(s.subrange(k + 1, s.len() as int))
    }
}

#[via_fn]
proof fn dollar_fields_decreases(s: Seq<char>) {
    lemma_until_dollar_le(s);
}

/// A decimal digit character.
pub open spec fn is_digit(c: char) -> bool {
    0x30 <= (c as u32) && (c as u32) <= 0x39
}

pub open spec fn digit_val(c: char) -> nat {
    ((c as u32) - 0x30) as nat
}

/// The value of a string of digits, most significant first.
pub open spec fn dec_val(s: Seq<char>) -> nat
    decreases s.len(),
{
    if s.len() == 0 {
        0
    } else {
        dec_val(s.drop_last()) * 10 + digit_val(s.last())
    }
}

/// The digits of a number token: a single leading `+` is not part of them.
pub open spec fn u16_body(s: Seq<char>) -> Seq<char> {
    if s.len() > 0 && s[0] == '+' {
        s.drop_first()
    } else {
        s
    }
}

/// What `"…".parse::<u16>()` accepts and yields: an optional leading `+`,
/// then one or more digits, whose value fits in sixteen bits.
pub open spec fn u16_of(s: Seq<char>) -> Option<u16> {
    let body = u16_body(s);
    if body.len() > 0 && (forall|i: int| 0 <= i < body.len() ==> is_digit(body[i])) && dec_val(
        body,
    ) <= 0xFFFF {
        Some(dec_val(body) as u16)
    } else {
        None
    }
}

/// Parse the digits of a vector of characters as a sixteen-bit number,
/// exactly as `str::parse::<u16>` would.
pub fn parse_u16(v: &Vec<char>) -> (r: Option<u16>)
    ensures
        r == u16_of(v@),
{
    let ghost s = v@;
    let n = v.len();
    let start: usize = if n > 0 && v[0] == '+' {
        1
    } else {
        0
    };
    let ghost body = u16_body(s);
    proof {
        assert(body =~= s.subrange(start as int, n as int));
    }
    if start == n {
        return None;
    }
    let mut i: usize = start;
    let mut acc: u32 = 0;
    let mut over: bool = false;
    while i < n
        invariant
            start <= i <= n,
            n == s.len(),
            v@ == s,
            body == u16_body(s),
            body == s.subrange(start as int, n as int),
            forall|j: int| start <= j < i ==> is_digit(s[j]),
            !over ==> acc <= 0xFFFF && acc == dec_val(s.subrange(start as int, i as int)),
            over ==> dec_val(s.subrange(start as int, i as int)) > 0xFFFF,
        decreases n - i,
    {
        let c = v[i];
        let u = c as u32;
        if !(0x30 <= u && u <= 0x39) {
            proof {
                let idx = i - start;
                assert(0 <= idx < body.len());
                assert(body[idx] == s[i as int]);
                assert(s[i as int] == c);
                assert(!is_digit(body[idx]));
                assert(u16_of(v@) is None);
            }
            return None;
        }
        let d = u - 0x30;
        let ghost pre = s.subrange(start as int, i as int);
        let ghost post = s.subrange(start as int, i + 1int);
        proof {
            assert(post.drop_last() =~= pre);
            assert(post.last() == s[i as int]);
            assert(dec_val(post) == dec_val(pre) * 10 + digit_val(s[i as int]));
        }
        if over {
            proof {
                assert(dec_val(pre) * 10 >= dec_val(pre)) by (nonlinear_arith)
                    requires dec_val(pre) >= 0;
            }
        } else {
            acc = acc * 10 + d;
            if acc > 0xFFFF {
                over = true;
            }
        }
        i = i + 1;
    }
    proof {
        assert(s.subrange(start as int, n as int) == body);
    }
    if over {
        None
    } else {
        proof {
            assert(forall|j: int| 0 <= j < body.len() ==> body[j] == s[j + start]);
        }
        Some(acc as u16)
    }
}

/// The view of a sequence of character vectors, vector by vector.
pub open spec fn views_of(ts: Seq<Vec<char>>) -> Seq<Seq<char>> {
    ts.map_values(|t: Vec<char>| t@)
}

/// Split the characters from position `i` on into whitespace-separated
/// tokens, as `str::split_whitespace` does.
pub fn tokenize_from(cs: &Vec<char>, i: usize) -> (r: Vec<Vec<char>>)
    requires
        i <= cs.len(),
    ensures
        views_of(r@) == tokens_of(cs@.subrange(i as int, cs.len() as int)),
    decreases cs.len() - i,
{
    let n = cs.len();
    let ghost tail = cs@.subrange(i as int, n as int);
    if i == n {
        let r: Vec<Vec<char>> = Vec::new();
        assert(views_of(r@) =~= tokens_of(tail));
        return r;
    }
    proof {
        assert(tail[0] == cs@[i as int]);
    }
    if is_wspace_exec(cs[i]) {
        let r = tokenize_from(cs, i + 1);
        proof {
            assert(tail.drop_first() =~= cs@.subrange(i + 1int, n as int));
        }
        return r;
    }
    let mut j: usize = i + 1;
    let mut stop: bool = false;
    while j < n && !stop
        invariant
            i < j <= n,
            n == cs.len(),
            forall|t: int| i <= t < j ==> !is_wspace(cs@[t]),
            stop ==> j < n && is_wspace(cs@[j as int]),
        decreases n - j + (if stop { 0int } else { 1int }),
    {
        if is_wspace_exec(cs[j]) {
            stop = true;
        } else {
            j = j + 1;
        }
    }
    proof {
        assert(j == n || is_wspace(cs@[j as int]));
        assert forall|t: int| 0 <= t < j - i implies !is_wspace(tail[t]) by {
            assert(tail[t] == cs@[t + i]);
        }
        if j < n {
            assert(tail[j - i] == cs@[j as int]);
        }
        lemma_non_ws_prefix_scan(tail, j - i);
    }
    let tok = vec_range(cs, i, j);
    let mut rest = tokenize_from(cs, j);
    proof {
        assert(tok@ =~= tail.subrange(0, j - i));
        assert(cs@.subrange(j as int, n as int) =~= tail.subrange(j - i, tail.len() as int));
    }
    let mut r: Vec<Vec<char>> = Vec::new();
    r.push(tok);
    let ghost rest_view = views_of(rest@);
    r.append(&mut rest);
    proof {
        assert(views_of(r@) =~= seq![tail.subrange(0, j - i)] + rest_view);
    }
    r
}

/// Split the characters from position `i` on at `$` separators, empties
/// kept, as `str::split('$')` does.
pub fn dollar_split_from(cs: &Vec<char>, i: usize) -> (r: Vec<Vec<char>>)
    requires
        i <= cs.len(),
    ensures
        views_of(r@) == dollar_fields(cs@.subrange(i as int, cs.len() as int)),
    decreases cs.len() - i,
{
    let n = cs.len();
    let ghost tail = cs@.subrange(i as int, n as int);
    let mut j: usize = i;
    let mut stop: bool = false;
    while j < n && !stop
        invariant
            i <= j <= n,
            n == cs.len(),
            forall|t: int| i <= t < j ==> cs@[t] != '$',
            stop ==> j < n && cs@[j as int] == '$',
        decreases n - j + (if stop { 0int } else { 1int }),
    {
        if cs[j] == '$' {
            stop = true;
        } else {
            j = j + 1;
        }
    }
    proof {
        assert(j == n || cs@[j as int] == '$');
        assert forall|t: int| 0 <= t < j - i implies tail[t] != '$' by {
            assert(tail[t] == cs@[t + i]);
        }
        if j < n {
            assert(tail[j - i] == cs@[j as int]);
        }
        lemma_until_dollar_scan(tail, j - i);
    }
    let field = vec_range(cs, i, j);
    proof {
        assert(field@ =~= tail.subrange(0, j - i));
    }
    if j == n {
        let mut r: Vec<Vec<char>> = Vec::new();
        proof {
            assert(field@ =~= tail);
        }
        r.push(field);
        proof {
            assert(views_of(r@) =~= seq![tail]);
        }
        return r;
    }
    let mut rest = dollar_split_from(cs, j + 1);
    proof {
        assert(cs@.subrange(j + 1int, n as int) =~= tail.subrange(j - i + 1, tail.len() as int));
    }
    let mut r: Vec<Vec<char>> = Vec::new();
    r.push(field);
    let ghost rest_view = views_of(rest@);
    r.append(&mut rest);
    proof {
        assert(views_of(r@) =~= seq![tail.subrange(0, j - i)] + rest_view);
    }
    r
}

/// A field with its trailing `%` sentinel removed, if it carries one.
pub open spec fn strip_pct(t: Seq<char>) -> Seq<char> {
    if t.len() > 0 && t.last() == '%' {
        t.drop_last()
    } else {
        t
    }
}

/// Badge format: exactly three `$`-separated fields, non-empty names, and
/// a positive year once the trailing `%` is stripped from the last field.
pub open spec fn badge_parse(s: Seq<char>) -> Option<NameTagView> {
    let f = dollar_fields(s);
    if f.len() == 3 && f[0].len() > 0 && f[1].len() > 0 {
        match u16_of(strip_pct(f[2])) {
            Some(y) => if y > 0 {
                Some(NameTagView { first_name: f[0], last_name: f[1], grad_year: y, badge: true })
            } else {
                None
            },
            None => None,
        }
    } else {
        None
    }
}

/// Normal format: exactly three whitespace-separated tokens, the third a
/// positive year.
pub open spec fn normal_parse(s: Seq<char>) -> Option<NameTagView> {
    let ts = tokens_of(s);
    if ts.len() == 3 {
        match u16_of(ts[2]) {
            Some(y) => if y > 0 {
                Some(
                    NameTagView { first_name: ts[0], last_name: ts[1], grad_year: y, badge: false },
                )
            } else {
                None
            },
            None => None,
        }
    } else {
        None
    }
}

/// What a case-folded sign-in line parses to: a trailing `%` selects the
/// badge format, anything else is read as the normal format.
pub open spec fn spec_parse(s: Seq<char>) -> Option<NameTagView> {
    if s.len() > 0 && s.last() == '%' {
        badge_parse(s)
    } else {
        normal_parse(s)
    }
}

/// Law: every well-formed normal-format line — three whitespace-separated
/// tokens, no trailing `%`, the third a positive year — is accepted, with
/// exactly those tokens as fields and the badge flag off.
pub proof fn lemma_normal_format_accepted(s: Seq<char>, y: u16)
    requires
        !(s.len() > 0 && s.last() == '%'),
        tokens_of(s).len() == 3,
        u16_of(tokens_of(s)[2]) == Some(y),
        y > 0,
    ensures
        spec_parse(s) == Some(
            NameTagView {
                first_name: tokens_of(s)[0],
                last_name: tokens_of(s)[1],
                grad_year: y,
                badge: false,
            },
        ),
{
}

/// Law: every well-formed badge-format line — a trailing `%`, exactly
/// three `$`-separated fields with non-empty names, the year positive once
/// the sentinel is stripped — is accepted, with the badge flag on and no
/// `%` left in the year.
pub proof fn lemma_badge_format_accepted(s: Seq<char>, y: u16)
    requires
        s.len() > 0,
        s.last() == '%',
        dollar_fields(s).len() == 3,
        dollar_fields(s)[0].len() > 0,
        dollar_fields(s)[1].len() > 0,
        u16_of(strip_pct(dollar_fields(s)[2])) == Some(y),
        y > 0,
    ensures
        spec_parse(s) == Some(
            NameTagView {
                first_name: dollar_fields(s)[0],
                last_name: dollar_fields(s)[1],
                grad_year: y,
                badge: true,
            },
        ),
{
}

/// Law: everything else is rejected — a wrong token or field count, a
/// non-numeric or non-positive year, or a badge line whose separators do
/// not carve out three fields yields no record.
pub proof fn lemma_malformed_rejected(s: Seq<char>)
    ensures
        (s.len() > 0 && s.last() == '%' && !(dollar_fields(s).len() == 3 && dollar_fields(s)[0].len()
            > 0 && dollar_fields(s)[1].len() > 0 && match u16_of(strip_pct(dollar_fields(s)[2])) {
            Some(y) => y > 0,
            None => false,
        })) ==> spec_parse(s) is None,
        (!(s.len() > 0 && s.last() == '%') && !(tokens_of(s).len() == 3 && match u16_of(
            tokens_of(s)[2],
        ) {
            Some(y) => y > 0,
            None => false,
        })) ==> spec_parse(s) is None,
{
}

/// Parse an already case-folded line.
pub fn parse_line(s: &str) -> (r: Result<NameTag, ParseError>)
    ensures
        match r {
            Ok(t) => spec_parse(s@) == Some(t@),
            Err(e) => spec_parse(s@) is None && e == ParseError::DeserializeError,
        },
{
    let cs = chars_of(s);
    let n = cs.len();
    proof {
        assert(cs@.subrange(0, n as int) =~= s@);
    }
    if n > 0 && cs[n - 1] == '%' {
        let fields = dollar_split_from(&cs, 0);
        let ghost f = dollar_fields(s@);
        if fields.len() == 3 && fields[0].len() > 0 && fields[1].len() > 0 {
            proof {
                assert(views_of(fields@)[0] == fields@[0]@);
                assert(views_of(fields@)[1] == fields@[1]@);
                assert(views_of(fields@)[2] == fields@[2]@);
            }
            let yf = &fields[2];
            let m = yf.len();
            let digits = if m > 0 && yf[m - 1] == '%' {
                vec_range(yf, 0, m - 1)
            } else {
                vec_range(yf, 0, m)
            };
            proof {
                assert(f[2].drop_last() =~= f[2].subrange(0, f[2].len() - 1));
                assert(f[2].subrange(0, f[2].len() as int) =~= f[2]);
                assert(digits@ == strip_pct(f[2]));
            }
            match parse_u16(&digits) {
                Some(y) => {
                    if y > 0 {
                        let first_name = chars_to_string(&fields[0]);
                        let last_name = chars_to_string(&fields[1]);
                        let t = NameTag { first_name, last_name, grad_year: y, badge: true };
                        proof {
                            assert(spec_parse(s@) == Some(t@));
                        }
                        Ok(t)
                    } else {
                        Err(ParseError::DeserializeError)
                    }
                },
                None => Err(ParseError::DeserializeError),
            }
        } else {
            proof {
                assert(views_of(fields@).len() == fields@.len());
                if fields@.len() == 3 {
                    assert(views_of(fields@)[0] == fields@[0]@);
                    assert(views_of(fields@)[1] == fields@[1]@);
                }
            }
            Err(ParseError::DeserializeError)
        }
    } else {
        let tokens = tokenize_from(&cs, 0);
        let ghost ts = tokens_of(s@);
        if tokens.len() == 3 {
            proof {
                assert(views_of(tokens@)[0] == tokens@[0]@);
                assert(views_of(tokens@)[1] == tokens@[1]@);
                assert(views_of(tokens@)[2] == tokens@[2]@);
            }
            match parse_u16(&tokens[2]) {
                Some(y) => {
                    if y > 0 {
                        let first_name = chars_to_string(&tokens[0]);
                        let last_name = chars_to_string(&tokens[1]);
                        let t = NameTag { first_name, last_name, grad_year: y, badge: false };
                        proof {
                            assert(spec_parse(s@) == Some(t@));
                        }
                        Ok(t)
                    } else {
                        Err(ParseError::DeserializeError)
                    }
                },
                None => Err(ParseError::DeserializeError),
            }
        } else {
            Err(ParseError::DeserializeError)
        }
    }
}

/// Parse one raw sign-in line: the line is case-folded first, so stored
/// names are always lower-case.
pub fn parse(raw: &str) -> (r: Result<NameTag, ParseError>)
    ensures
        match r {
            Ok(t) => spec_parse(lower_of(raw@)) == Some(t@),
            Err(e) => spec_parse(lower_of(raw@)) is None && e == ParseError::DeserializeError,
        },
{
    let folded = lowercase(raw);
    parse_line(folded.as_str())
}

} // verus!
