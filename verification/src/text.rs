//! Text as the assertions compare it: trimming and substring search.

use vstd::prelude::*;
use vstd::string::{StrSliceExecFns, StringExecFns, StringSliceAdditionalSpecFns};
use vstd::utf8::{encode_utf8, encode_utf8_decode_utf8};

verus! {

/// Whether a character is white space: whether Unicode gives it the
/// property `White_Space`.
pub uninterp spec fn is_white_space(c: char) -> bool;

/// `char::is_whitespace`: whether the character has Unicode's property
/// `White_Space`.
pub assume_specification[ char::is_whitespace ](c: char) -> (white: bool)
    ensures
        white == is_white_space(c),
;

/// `s` without the white space it starts with.
pub open spec fn trim_start(s: Seq<char>) -> Seq<char>
    decreases s.len(),
{
    if s.len() > 0 && is_white_space(s.first()) {
        trim_start(s.drop_first())
    } else {
        s
    }
}

/// `s` without the white space it ends with.
pub open spec fn trim_end(s: Seq<char>) -> Seq<char>
    decreases s.len(),
{
    if s.len() > 0 && is_white_space(s.last()) {
        trim_end(s.drop_last())
    } else {
        s
    }
}

/// `s` without the white space at either end.
pub open spec fn trimmed(s: Seq<char>) -> Seq<char> {
    trim_end(trim_start(s))
}

/// Whether `needle` occurs in `hay` as a run of adjacent characters.
pub open spec fn occurs_in(needle: Seq<char>, hay: Seq<char>) -> bool {
    exists|at: int|
        0 <= at && at + needle.len() <= hay.len() && #[trigger] hay.subrange(
            at,
            at + needle.len(),
        ) == needle
}

/// Taking white space from the front leaves what follows the first
/// `lead` characters, where these are white space and the next is not.
pub proof fn lemma_trim_start(s: Seq<char>, lead: int)
    requires
        0 <= lead <= s.len(),
        forall|k: int| 0 <= k < lead ==> is_white_space(#[trigger] s[k]),
        lead < s.len() ==> !is_white_space(s[lead]),
    ensures
        trim_start(s) == s.subrange(lead, s.len() as int),
    decreases lead,
{
    if lead == 0 {
        assert(s.subrange(0, s.len() as int) =~= s);
    } else {
        let rest = s.drop_first();
        assert forall|k: int| 0 <= k < lead - 1 implies is_white_space(#[trigger] rest[k]) by {
            assert(rest[k] == s[k + 1]);
        }
        lemma_trim_start(rest, lead - 1);
        assert(rest.subrange(lead - 1, rest.len() as int) =~= s.subrange(lead, s.len() as int));
    }
}

/// Taking white space from the back leaves the first `keep` characters,
/// where all that follow are white space and the last that is kept is not.
pub proof fn lemma_trim_end(s: Seq<char>, keep: int)
    requires
        0 <= keep <= s.len(),
        forall|k: int| keep <= k < s.len() ==> is_white_space(#[trigger] s[k]),
        keep > 0 ==> !is_white_space(s[keep - 1]),
    ensures
        trim_end(s) == s.subrange(0, keep),
    decreases s.len() - keep,
{
    if keep == s.len() {
        assert(s.subrange(0, keep) =~= s);
    } else {
        let rest = s.drop_last();
        lemma_trim_end(rest, keep);
        assert(rest.subrange(0, keep) =~= s.subrange(0, keep));
    }
}

/// Text has no more characters than bytes.
pub proof fn lemma_chars_fit(chars: Seq<char>)
    ensures
        chars.len() <= encode_utf8(chars).len(),
    decreases chars.len(),
{
    if chars.len() > 0 {
        lemma_chars_fit(chars.drop_first());
    }
}

/// The slice left when the white space at both ends is taken away.
pub fn trim(s: &str) -> (inner: &str)
    ensures
        inner@ == trimmed(s@),
{
    let len = s.as_bytes().len();
    proof {
        lemma_chars_fit(s@);
    }
    let mut lead: usize = 0;
    let mut keep: usize = 0;
    let mut i: usize = 0;
    for c in iter: s.chars()
        invariant
            iter.seq() == s@,
            i == iter.index(),
            s@.len() <= len,
            lead <= i,
            keep <= i,
            forall|k: int| 0 <= k < lead ==> is_white_space(#[trigger] s@[k]),
            forall|k: int| keep <= k < i ==> is_white_space(#[trigger] s@[k]),
            keep > 0 ==> !is_white_space(s@[keep - 1]),
            if keep == 0 {
                lead == i
            } else {
                lead < keep && !is_white_space(s@[lead as int])
            },
    {
        if c.is_whitespace() {
            if keep == 0 {
                lead = i + 1;
            }
        } else {
            keep = i + 1;
        }
        i += 1;
    }
    if keep == 0 {
        keep = lead;
    }
    proof {
        let rest = s@.subrange(lead as int, s@.len() as int);
        lemma_trim_start(s@, lead as int);
        assert forall|k: int| keep - lead <= k < rest.len() implies is_white_space(
            #[trigger] rest[k],
        ) by {
            assert(rest[k] == s@[k + lead]);
        }
        lemma_trim_end(rest, keep - lead);
        assert(rest.subrange(0, keep - lead) =~= s@.subrange(lead as int, keep as int));
    }
    s.substring_char(lead, keep)
}

/// `str::contains` with a string pattern: whether `needle` is a substring
/// of `hay`.
#[verifier::external_body]
pub(crate) fn contains(hay: &str, needle: &str) -> (found: bool)
    ensures
        found == occurs_in(needle@, hay@),
{
    hay.contains(needle)
}

/// Whether two slices hold the same characters.
pub fn same(a: &str, b: &str) -> (equal: bool)
    ensures
        equal == (a@ == b@),
{
    let left = a.as_bytes();
    let right = b.as_bytes();
    proof {
        encode_utf8_decode_utf8(a@);
        encode_utf8_decode_utf8(b@);
        assert(left@ == encode_utf8(a@));
        assert(right@ == encode_utf8(b@));
    }
    if left.len() != right.len() {
        return false;
    }
    let mut i: usize = 0;
    while i < left.len()
        invariant
            i <= left.len(),
            left.len() == right.len(),
            left@ == encode_utf8(a@),
            right@ == encode_utf8(b@),
            forall|k: int| 0 <= k < i ==> left@[k] == right@[k],
        decreases left.len() - i,
    {
        if left[i] != right[i] {
            return false;
        }
        i += 1;
    }
    assert(left@ =~= right@);
    true
}

/// The character for a digit.
pub open spec fn digit_char(d: nat) -> char {
    if d == 0 {
        '0'
    } else if d == 1 {
        '1'
    } else if d == 2 {
        '2'
    } else if d == 3 {
        '3'
    } else if d == 4 {
        '4'
    } else if d == 5 {
        '5'
    } else if d == 6 {
        '6'
    } else if d == 7 {
        '7'
    } else if d == 8 {
        '8'
    } else {
        '9'
    }
}

/// The decimal digits of a number, the highest first.
pub open spec fn decimal_text(n: nat) -> Seq<char>
    decreases n,
{
    if n < 10 {
        seq![digit_char(n)]
    } else {
        decimal_text(n / 10).push(digit_char(n % 10))
    }
}

fn digit(d: u32) -> (text: &'static str)
    requires
        d < 10,
    ensures
        text@ == seq![digit_char(d as nat)],
{
    proof {
        reveal_strlit("0");
        reveal_strlit("1");
        reveal_strlit("2");
        reveal_strlit("3");
        reveal_strlit("4");
        reveal_strlit("5");
        reveal_strlit("6");
        reveal_strlit("7");
        reveal_strlit("8");
        reveal_strlit("9");
    }
    let text = if d == 0 {
        "0"
    } else if d == 1 {
        "1"
    } else if d == 2 {
        "2"
    } else if d == 3 {
        "3"
    } else if d == 4 {
        "4"
    } else if d == 5 {
        "5"
    } else if d == 6 {
        "6"
    } else if d == 7 {
        "7"
    } else if d == 8 {
        "8"
    } else {
        "9"
    };
    assert(text@ =~= seq![digit_char(d as nat)]);
    text
}

/// A number in decimal digits.
pub fn decimal(n: u32) -> (text: String)
    ensures
        text@ == decimal_text(n as nat),
    decreases n,
{
    if n < 10 {
        String::from_str(digit(n))
    } else {
        let mut text = decimal(n / 10);
        text.append(digit(n % 10));
        assert(text@ =~= decimal_text(n as nat / 10).push(digit_char(n as nat % 10)));
        text
    }
}

} // verus!
