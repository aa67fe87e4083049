//! Small text utilities over raw HTTP material.

use vstd::prelude::*;
use crate::text;

verus! {

/// Whitespace as URL validation counts it.
pub open spec fn is_url_space(c: char) -> bool {
    c == ' ' || c == '\t' || c == '\n' || c == '\r' || c == '\u{b}' || c == '\u{c}'
}

fn is_url_space_exec(c: char) -> (r: bool)
    ensures
        r == is_url_space(c),
{
    c == ' ' || c == '\t' || c == '\n' || c == '\r' || c == '\u{b}' || c == '\u{c}'
}

/// Whether a text is a plausible HTTP URL: an `http` or `https` scheme,
/// then a first character that is none of whitespace, `/`, `$`, `.`, `?`
/// or `#`, then at least one more character that is not a line feed, and
/// no whitespace anywhere after the scheme.
pub open spec fn valid_url(s: Seq<char>) -> bool {
    let k: int = if text::has_prefix(s, "https://"@) {
        8
    } else if text::has_prefix(s, "http://"@) {
        7
    } else {
        -1
    };
    &&& k >= 0
    &&& s.len() >= k + 2
    &&& !is_url_space(s[k]) && s[k] != '/' && s[k] != '$' && s[k] != '.' && s[k] != '?' && s[k]
        != '#'
    &&& s[k + 1] != '\n'
    &&& forall|i: int| k + 2 <= i < s.len() ==> !is_url_space(s[i])
}

/// Checks whether a text is a plausible HTTP URL, as `valid_url` says.
#[verifier::loop_isolation(false)]
pub fn is_valid_url(url: &str) -> (r: bool)
    ensures
        r == valid_url(url@),
{
    proof {
        reveal_strlit("https://");
        reveal_strlit("http://");
    }
    let n = url.unicode_len();
    let k: usize = if text::starts_with(url, "https://") {
        8
    } else if text::starts_with(url, "http://") {
        7
    } else {
        return false;
    };
    if n < k + 2 {
        return false;
    }
    let c0 = url.get_char(k);
    if is_url_space_exec(c0) || c0 == '/' || c0 == '$' || c0 == '.' || c0 == '?' || c0 == '#' {
        return false;
    }
    if url.get_char(k + 1) == '\n' {
        return false;
    }
    let mut i: usize = k + 2;
    while i < n
        invariant
            k + 2 <= i <= n,
            forall|j: int| k + 2 <= j < i ==> !is_url_space(url@[j]),
        decreases n - i,
    {
        if is_url_space_exec(url.get_char(i)) {
            return false;
        }
        i = i + 1;
    }
    true
}

/// Whether a status line fragment stands at `i`: `HTTP/<d>.<d> <ddd>`.
pub open spec fn status_at(s: Seq<char>, i: int) -> bool {
    &&& 0 <= i
    &&& i + 12 <= s.len()
    &&& s.subrange(i, i + 5) == "HTTP/"@
    &&& text::is_digit(s[i + 5])
    &&& s[i + 6] == '.'
    &&& text::is_digit(s[i + 7])
    &&& s[i + 8] == ' '
    &&& text::is_digit(s[i + 9])
    &&& text::is_digit(s[i + 10])
    &&& text::is_digit(s[i + 11])
}

/// The three-digit code standing at `i`.
pub open spec fn status_value(s: Seq<char>, i: int) -> int {
    text::digit_val(s[i + 9]) * 100 + text::digit_val(s[i + 10]) * 10 + text::digit_val(
        s[i + 11],
    )
}

fn digit_exec(c: char) -> (r: bool)
    ensures
        r == text::is_digit(c),
{
    let u = c as u32;
    48 <= u && u <= 57
}

/// Whether a status fragment stands at position `i` of `s`.
#[verifier::loop_isolation(false)]
fn status_at_exec(s: &str, i: usize) -> (r: bool)
    requires
        i <= s@.len(),
    ensures
        r == status_at(s@, i as int),
{
    proof {
        reveal_strlit("HTTP/");
    }
    let n = s.unicode_len();
    if n < 12 || i > n - 12 {
        return false;
    }
    if !text::matches_at(s, "HTTP/", i) {
        return false;
    }
    proof {
        assert(s@.subrange(i as int, i + 5) =~= "HTTP/"@);
    }
    digit_exec(s.get_char(i + 5)) && s.get_char(i + 6) == '.' && digit_exec(s.get_char(i + 7))
        && s.get_char(i + 8) == ' ' && digit_exec(s.get_char(i + 9)) && digit_exec(
        s.get_char(i + 10),
    ) && digit_exec(s.get_char(i + 11))
}

/// Pulls the first `HTTP/<d>.<d> <ddd>` status code out of raw response
/// text.
#[verifier::loop_isolation(false)]
pub fn extract_status_code(response: &str) -> (r: Option<u16>)
    ensures
        match r {
            Some(v) => exists|i: int|
                #[trigger] status_at(response@, i) && v == status_value(response@, i) && forall|
                    j: int,
                |
                    0 <= j < i ==> !status_at(response@, j),
            None => forall|i: int| !status_at(response@, i),
        },
{
    let n = response.unicode_len();
    let mut i: usize = 0;
    while i < n
        invariant
            0 <= i <= n,
            forall|j: int| 0 <= j < i ==> !status_at(response@, j),
        decreases n - i,
    {
        if status_at_exec(response, i) {
            let d1 = (response.get_char(i + 9) as u32 - 48) as u16;
            let d2 = (response.get_char(i + 10) as u32 - 48) as u16;
            let d3 = (response.get_char(i + 11) as u32 - 48) as u16;
            return Some(d1 * 100 + d2 * 10 + d3);
        }
        i = i + 1;
    }
    proof {
        assert forall|j: int| !status_at(response@, j) by {
            if status_at(response@, j) {
                assert(0 <= j < n);
            }
        }
    }
    None
}

/// The textual form of a duration: below one second plain milliseconds,
/// otherwise seconds with two decimals, rounded half up.
pub open spec fn duration_text(millis: int) -> Seq<char> {
    if millis < 1000 {
        text::dec_str(millis) + "ms"@
    } else {
        let cs = (millis + 5) / 10;
        text::dec_str(cs / 100) + seq!['.'] + seq![text::digit_char(cs / 10 % 10)] + seq![
            text::digit_char(cs % 10),
        ] + seq!['s']
    }
}

/// Renders a duration in milliseconds for human reading.
pub fn format_duration(millis: u64) -> (r: String)
    ensures
        r@ == duration_text(millis as int),
{
    if millis < 1000 {
        let mut out = text::u64_to_string(millis);
        out.append("ms");
        return out;
    }
    let cs = millis / 10 + (millis % 10 + 5) / 10;
    proof {
        assert(cs == (millis as int + 5) / 10) by (nonlinear_arith)
            requires
                cs == millis as int / 10 + (millis as int % 10 + 5) / 10,
        ;
    }
    let mut out = text::u64_to_string(cs / 100);
    text::push_char(&mut out, '.');
    let tens = (cs / 10 % 10) as u64;
    let ones = (cs % 10) as u64;
    let mut tail = String::new();
    text::push_u64(&mut tail, tens);
    out.append(tail.as_str());
    let mut tail2 = String::new();
    text::push_u64(&mut tail2, ones);
    out.append(tail2.as_str());
    text::push_char(&mut out, 's');
    proof {
        assert(text::dec_str(tens as int) =~= seq![text::digit_char(cs as int / 10 % 10)]);
        assert(text::dec_str(ones as int) =~= seq![text::digit_char(cs as int % 10)]);
        assert(out@ =~= duration_text(millis as int));
    }
    out
}

} // verus!
