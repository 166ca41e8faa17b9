//! Extracting a verification code from message text.
//!
//! Two rules are tried in order, first match wins:
//! 1. A structured marker: an HTML `div` element whose `class` attribute is
//!    `code` (written plainly, or with the quoted-printable encoding `=3D`
//!    of the `=`), whose inner text is a run of 4 to 8 digits immediately
//!    followed by the closing tag.
//! 2. A fallback: the leftmost standalone run of exactly 6 digits that is
//!    not all zeros and does not begin with `20` (which would usually be a
//!    year), where standalone means not adjacent to a letter, digit or
//!    underscore.

use vstd::prelude::*;
use vstd::string::StrSliceExecFns;
use crate::text::{matches_at, matches_pat_at, chars_of};

verus! {

/// A decimal digit.
pub open spec fn is_digit(c: char) -> bool {
    '0' <= c && c <= '9'
}

/// A character that may not border a standalone digit run: an ASCII
/// letter, a digit, or an underscore.
pub open spec fn is_word_char(c: char) -> bool {
    ||| is_digit(c)
    ||| ('a' <= c && c <= 'z')
    ||| ('A' <= c && c <= 'Z')
    ||| c == '_'
}

/// The marker's opening text in its quoted-printable form.
pub open spec fn qp_header() -> Seq<char> {
    "<div class=3D\"code\""@
}

/// The marker's opening text in its plain form.
pub open spec fn plain_header() -> Seq<char> {
    "<div class=\"code\""@
}

/// The marker's closing tag.
pub open spec fn closing_tag() -> Seq<char> {
    "</div>"@
}

/// Where the marker's opening text ends when it occurs at `i`, in either
/// of its two forms.
pub open spec fn header_end_at(t: Seq<char>, i: int) -> Option<int> {
    if matches_at(t, qp_header(), i) {
        Some(i + qp_header().len() as int)
    } else if matches_at(t, plain_header(), i) {
        Some(i + plain_header().len() as int)
    } else {
        None
    }
}

/// The position of the first `>` at or after `j`.
pub open spec fn find_gt(t: Seq<char>, j: int) -> Option<int>
    decreases t.len() - j,
{
    if j < 0 || j >= t.len() {
        None
    } else if t[j] == '>' {
        Some(j)
    } else {
        find_gt(t, j + 1)
    }
}

/// The end of the run of digits that starts at `j`.
pub open spec fn digit_run_end(t: Seq<char>, j: int) -> int
    decreases t.len() - j,
{
    if j < 0 || j >= t.len() {
        j
    } else if !is_digit(t[j]) {
        j
    } else {
        digit_run_end(t, j + 1)
    }
}

/// The digits of a structured marker that starts at `i`, if one does: the
/// opening text, then the rest of the attribute list up to the first `>`,
/// then 4 to 8 digits, then immediately the closing tag.
pub open spec fn marker_digits_at(t: Seq<char>, i: int) -> Option<Seq<char>> {
    match header_end_at(t, i) {
        None => None,
        Some(j) => match find_gt(t, j) {
            None => None,
            Some(g) => {
                let k = g + 1;
                let e = digit_run_end(t, k);
                if 4 <= e - k && e - k <= 8 && matches_at(t, closing_tag(), e) {
                    Some(t.subrange(k, e))
                } else {
                    None
                }
            },
        },
    }
}

/// The digits of the leftmost structured marker that starts at or after `i`.
pub open spec fn find_marker_from(t: Seq<char>, i: int) -> Option<Seq<char>>
    decreases t.len() - i,
{
    if i < 0 || i >= t.len() {
        None
    } else {
        match marker_digits_at(t, i) {
            Some(d) => Some(d),
            None => find_marker_from(t, i + 1),
        }
    }
}

/// Every position in `[a, b)` holds a digit.
pub open spec fn all_digits(t: Seq<char>, a: int, b: int) -> bool {
    forall|j: int| a <= j < b ==> is_digit(t[j])
}

/// A standalone run of exactly 6 digits starts at `i`: six digits not
/// bordered by a word character on either side.
pub open spec fn standalone_six_at(t: Seq<char>, i: int) -> bool {
    &&& 0 <= i
    &&& i + 6 <= t.len()
    &&& all_digits(t, i, i + 6)
    &&& (i == 0 || !is_word_char(t[i - 1]))
    &&& (i + 6 == t.len() || !is_word_char(t[i + 6]))
}

/// The heuristic's filter on a 6-digit run at `i`: not all zeros, and not
/// beginning with `20`.
pub open spec fn acceptable_six(t: Seq<char>, i: int) -> bool {
    &&& exists|k: int| i <= k < i + 6 && t[k] != '0'
    &&& !(t[i] == '2' && t[i + 1] == '0')
}

/// The leftmost acceptable standalone 6-digit run at or after `i`.
pub open spec fn find_fallback_from(t: Seq<char>, i: int) -> Option<Seq<char>>
    decreases t.len() - i,
{
    if i < 0 || i + 6 > t.len() {
        None
    } else if standalone_six_at(t, i) && acceptable_six(t, i) {
        Some(t.subrange(i, i + 6))
    } else {
        find_fallback_from(t, i + 1)
    }
}

/// What extraction returns: the leftmost structured marker's digits, and
/// only when no marker exists anywhere, the fallback's 6-digit run.
pub open spec fn extract_spec(t: Seq<char>) -> Option<Seq<char>> {
    match find_marker_from(t, 0) {
        Some(d) => Some(d),
        None => find_fallback_from(t, 0),
    }
}

/// Law: when a structured marker is present, its digits are what extraction
/// returns, whatever bare digit runs the text also holds.
pub proof fn lemma_marker_wins(t: Seq<char>)
    requires
        find_marker_from(t, 0) is Some,
    ensures
        extract_spec(t) == find_marker_from(t, 0),
{
}

fn is_digit_exec(c: char) -> (r: bool)
    ensures
        r == is_digit(c),
{
    '0' <= c && c <= '9'
}

fn is_word_char_exec(c: char) -> (r: bool)
    ensures
        r == is_word_char(c),
{
    is_digit_exec(c) || ('a' <= c && c <= 'z') || ('A' <= c && c <= 'Z') || c == '_'
}

fn find_gt_exec(t: &Vec<char>, j: usize) -> (r: Option<usize>)
    requires
        j <= t@.len(),
    ensures
        match r {
            Some(g) => find_gt(t@, j as int) == Some(g as int) && j <= g < t@.len(),
            None => find_gt(t@, j as int) is None,
        },
{
    let n = t.len();
    let mut k = j;
    while k < n
        invariant
            j <= k <= n,
            n == t@.len(),
            find_gt(t@, j as int) == find_gt(t@, k as int),
        decreases n - k,
    {
        if t[k] == '>' {
            assert(find_gt(t@, k as int) == Some(k as int));
            return Some(k);
        }
        assert(find_gt(t@, k as int) == find_gt(t@, k + 1));
        k += 1;
    }
    assert(find_gt(t@, k as int) is None);
    None
}

fn digit_run_end_exec(t: &Vec<char>, j: usize) -> (r: usize)
    requires
        j <= t@.len(),
    ensures
        r as int == digit_run_end(t@, j as int),
        j <= r <= t@.len(),
{
    let n = t.len();
    let mut k = j;
    while k < n && is_digit_exec(t[k])
        invariant
            j <= k <= n,
            n == t@.len(),
            digit_run_end(t@, j as int) == digit_run_end(t@, k as int),
        decreases n - k,
    {
        assert(digit_run_end(t@, k as int) == digit_run_end(t@, k + 1));
        k += 1;
    }
    assert(digit_run_end(t@, k as int) == k as int);
    k
}

fn marker_digits_at_exec(
    t: &Vec<char>,
    qp: &Vec<char>,
    plain: &Vec<char>,
    closing: &Vec<char>,
    i: usize,
) -> (r: Option<(usize, usize)>)
    requires
        i <= t@.len(),
        qp@ == qp_header(),
        plain@ == plain_header(),
        closing@ == closing_tag(),
    ensures
        match r {
            Some(ke) => ke.0 <= ke.1 <= t@.len() && marker_digits_at(t@, i as int) == Some(
                t@.subrange(ke.0 as int, ke.1 as int),
            ),
            None => marker_digits_at(t@, i as int) is None,
        },
{
    let n = t.len();
    let j: usize;
    if matches_pat_at(t, qp, i) {
        assert(i + qp@.len() <= n);
        j = i + qp.len();
    } else if matches_pat_at(t, plain, i) {
        assert(i + plain@.len() <= n);
        j = i + plain.len();
    } else {
        return None;
    }
    assert(header_end_at(t@, i as int) == Some(j as int));
    match find_gt_exec(t, j) {
        None => None,
        Some(g) => {
            assert(g < n);
            let k = g + 1;
            let e = digit_run_end_exec(t, k);
            let len = e - k;
            if 4 <= len && len <= 8 && matches_pat_at(t, closing, e) {
                Some((k, e))
            } else {
                None
            }
        },
    }
}

fn fallback_candidate_at(t: &Vec<char>, i: usize) -> (r: bool)
    requires
        i + 6 <= t@.len(),
    ensures
        r == (standalone_six_at(t@, i as int) && acceptable_six(t@, i as int)),
{
    let n = t.len();
    let mut k: usize = 0;
    while k < 6
        invariant
            k <= 6,
            i + 6 <= n,
            n == t@.len(),
            forall|j: int| i <= j < i + k ==> is_digit(t@[j]),
        decreases 6 - k,
    {
        if !is_digit_exec(t[i + k]) {
            assert(!is_digit(t@[i + k as int]));
            return false;
        }
        k += 1;
    }
    assert(all_digits(t@, i as int, i + 6));
    if i > 0 && is_word_char_exec(t[i - 1]) {
        return false;
    }
    if i + 6 < n && is_word_char_exec(t[i + 6]) {
        return false;
    }
    assert(standalone_six_at(t@, i as int));
    if t[i] == '2' && t[i + 1] == '0' {
        return false;
    }
    let mut k2: usize = 0;
    while k2 < 6
        invariant
            k2 <= 6,
            i + 6 <= n,
            n == t@.len(),
            standalone_six_at(t@, i as int),
            !(t@[i as int] == '2' && t@[i as int + 1] == '0'),
            forall|j: int| i <= j < i + k2 ==> t@[j] == '0',
        decreases 6 - k2,
    {
        if t[i + k2] != '0' {
            assert(t@[i + k2 as int] != '0');
            return true;
        }
        k2 += 1;
    }
    assert forall|k3: int| i <= k3 < i + 6 implies t@[k3] == '0' by {}
    assert(!acceptable_six(t@, i as int));
    false
}

/// Extract a verification code from `text`: the leftmost structured
/// marker's digit string, or failing that the leftmost acceptable
/// standalone 6-digit run, or nothing.
pub fn extract_verification_code(text: &str) -> (r: Option<String>)
    ensures
        match r {
            Some(s) => extract_spec(text@) == Some(s@),
            None => extract_spec(text@) is None,
        },
{
    let t = chars_of(text);
    let qp = chars_of("<div class=3D\"code\"");
    let plain = chars_of("<div class=\"code\"");
    let closing = chars_of("</div>");
    let n = t.len();
    let mut i: usize = 0;
    while i < n
        invariant
            i <= n,
            n == t@.len(),
            t@ == text@,
            qp@ == qp_header(),
            plain@ == plain_header(),
            closing@ == closing_tag(),
            find_marker_from(text@, 0) == find_marker_from(text@, i as int),
        decreases n - i,
    {
        match marker_digits_at_exec(&t, &qp, &plain, &closing, i) {
            Some((k, e)) => {
                assert(find_marker_from(text@, i as int) == Some(
                    text@.subrange(k as int, e as int),
                ));
                let s = text.substring_char(k, e).to_owned();
                return Some(s);
            },
            None => {
                assert(find_marker_from(text@, i as int) == find_marker_from(text@, i + 1));
            },
        }
        i += 1;
    }
    assert(find_marker_from(text@, 0) is None);
    if n < 6 {
        assert(find_fallback_from(text@, 0) is None);
        return None;
    }
    let mut p: usize = 0;
    while p <= n - 6
        invariant
            p <= n,
            6 <= n,
            n == t@.len(),
            t@ == text@,
            find_marker_from(text@, 0) is None,
            find_fallback_from(text@, 0) == find_fallback_from(text@, p as int),
        decreases n - p,
    {
        if fallback_candidate_at(&t, p) {
            assert(find_fallback_from(text@, p as int) == Some(
                text@.subrange(p as int, p + 6),
            ));
            let s = text.substring_char(p, p + 6).to_owned();
            return Some(s);
        }
        assert(find_fallback_from(text@, p as int) == find_fallback_from(text@, p + 1));
        p += 1;
    }
    assert(find_fallback_from(text@, p as int) is None);
    None
}

} // verus!
