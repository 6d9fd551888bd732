//! Verified text utilities: character extraction, substring search, and
//! decimal formatting.

use vstd::prelude::*;
use vstd::std_specs::iter::IteratorSpec;
use vstd::string::StringExecFns;

verus! {

broadcast use vstd::string::group_string_axioms;

/// The characters of a text, as a vector that can be indexed in O(1).
pub fn str_to_chars(s: &str) -> (r: Vec<char>)
    ensures
        r@ == s@,
{
    let mut r: Vec<char> = Vec::new();
    for c in it: s.chars()
        invariant
            it.seq() == s@,
            r@.len() == it.index(),
            forall|j: int| 0 <= j < r@.len() ==> r@[j] == it.seq()[j],
    {
        r.push(c);
    }
    proof {
        assert(r@ =~= s@);
    }
    r
}

/// Whether `pat` occurs in `text` starting at position `i`.
pub open spec fn is_match_at(text: Seq<char>, pat: Seq<char>, i: int) -> bool {
    &&& 0 <= i
    &&& i + pat.len() <= text.len()
    &&& text.subrange(i, i + pat.len() as int) == pat
}

/// The position of the first occurrence of `pat` in `text` at or after
/// `from`, if any.
pub open spec fn find_spec(text: Seq<char>, pat: Seq<char>, from: int) -> Option<int>
    decreases text.len() - from,
{
    if from < 0 || from + pat.len() > text.len() {
        None
    } else if pat.len() == 0 {
        Some(from)
    } else if is_match_at(text, pat, from) {
        Some(from)
    } else {
        find_spec(text, pat, from + 1)
    }
}

/// Whether `pat` matches `text` at position `i`.
#[verifier::loop_isolation(false)]
fn chars_match(text: &Vec<char>, pat: &Vec<char>, i: usize) -> (r: bool)
    requires
        i + pat@.len() <= text@.len(),
    ensures
        r == is_match_at(text@, pat@, i as int),
{
    let n = text.len();
    let m = pat.len();
    let mut j: usize = 0;
    while j < m
        invariant
            0 <= j <= m,
            forall|k: int| 0 <= k < j ==> text@[i + k] == pat@[k],
        decreases m - j,
    {
        proof {
            assert(i + j < text@.len());
        }
        if text[i + j] != pat[j] {
            proof {
                assert(text@.subrange(i as int, i + pat@.len() as int)[j as int] == text@[i + j]);
            }
            return false;
        }
        j += 1;
    }
    proof {
        assert(text@.subrange(i as int, i + pat@.len() as int) =~= pat@);
    }
    true
}

/// Find the first occurrence of `pat` in `text` at or after `from`.
#[verifier::loop_isolation(false)]
pub fn find_in_chars(text: &Vec<char>, pat: &Vec<char>, from: usize) -> (r: Option<usize>)
    ensures
        match r {
            Some(i) => Some(i as int) == find_spec(text@, pat@, from as int),
            None => find_spec(text@, pat@, from as int) is None,
        },
{
    let n = text.len();
    let m = pat.len();
    if m > n || from > n - m {
        return None;
    }
    if m == 0 {
        return Some(from);
    }
    let mut i: usize = from;
    while i <= n - m
        invariant
            from <= i,
            i <= n - m + 1,
            find_spec(text@, pat@, from as int) == find_spec(text@, pat@, i as int),
        decreases n - i,
    {
        if chars_match(text, pat, i) {
            return Some(i);
        }
        i += 1;
    }
    None
}

/// A found position lies at or after `from` and leaves room for the pattern.
pub proof fn lemma_find_spec_props(text: Seq<char>, pat: Seq<char>, from: int)
    ensures
        match find_spec(text, pat, from) {
            Some(i) => from <= i && 0 <= i && i + pat.len() <= text.len(),
            None => true,
        },
    decreases text.len() - from,
{
    if from < 0 || from + pat.len() > text.len() {
    } else if pat.len() == 0 {
    } else if is_match_at(text, pat, from) {
    } else {
        lemma_find_spec_props(text, pat, from + 1);
    }
}

/// The position of the first `c` in `s` at or after `from`.
pub open spec fn find_char(s: Seq<char>, c: char, from: int) -> Option<int>
    decreases s.len() - from,
{
    if from < 0 || from >= s.len() {
        None
    } else if s[from] == c {
        Some(from)
    } else {
        find_char(s, c, from + 1)
    }
}

pub proof fn lemma_find_char_props(s: Seq<char>, c: char, from: int)
    ensures
        match find_char(s, c, from) {
            Some(g) => from <= g < s.len() && s[g] == c,
            None => true,
        },
    decreases s.len() - from,
{
    if from < 0 || from >= s.len() {
    } else if s[from] == c {
    } else {
        lemma_find_char_props(s, c, from + 1);
    }
}

pub proof fn lemma_find_char_skip(s: Seq<char>, c: char, pos: int, j: int)
    requires
        0 <= pos <= s.len(),
        0 <= j,
    ensures
        match find_char(s.skip(pos), c, j) {
            Some(k) => find_char(s, c, pos + j) == Some(pos + k),
            None => find_char(s, c, pos + j) is None,
        },
    decreases s.len() - pos - j,
{
    if j >= s.skip(pos).len() {
    } else {
        assert(s.skip(pos)[j] == s[pos + j]);
        if s[pos + j] == c {
        } else {
            lemma_find_char_skip(s, c, pos, j + 1);
        }
    }
}

/// Where the first `c` at or after `j` is known to sit, `find_char` finds
/// it: no occurrence in `[j, k)`, and either `k` is past the end or `c`
/// stands at `k`.
pub proof fn lemma_find_char_first(s: Seq<char>, c: char, j: int, k: int)
    requires
        0 <= j <= k <= s.len(),
        forall|i: int| j <= i < k ==> s[i] != c,
        k < s.len() ==> s[k] == c,
    ensures
        find_char(s, c, j) == (if k == s.len() {
            None::<int>
        } else {
            Some(k)
        }),
    decreases k - j,
{
    if j == k {
    } else {
        lemma_find_char_first(s, c, j + 1, k);
    }
}

/// Find a character in a vector of characters.
#[verifier::loop_isolation(false)]
pub fn find_char_exec(chars: &Vec<char>, c: char, from: usize) -> (r: Option<usize>)
    requires
        from <= chars@.len(),
    ensures
        match r {
            Some(g) => Some(g as int) == find_char(chars@, c, from as int),
            None => find_char(chars@, c, from as int) is None,
        },
{
    let n = chars.len();
    let mut i: usize = from;
    while i < n
        invariant
            from <= i <= n,
            find_char(chars@, c, from as int) == find_char(chars@, c, i as int),
        decreases n - i,
    {
        if chars[i] == c {
            return Some(i);
        }
        i += 1;
    }
    None
}

/// One decimal digit as a character.
pub open spec fn dec_digit(d: nat) -> char {
    if d == 0 {
        '0'
    } else if d == 1 {
        '1'
    } else if d == 2 {
        '2'
    } else if d == 3 {
        '3'
    } else if d == 4 {
        '4'
    } else if d == 5 {
        '5'
    } else if d == 6 {
        '6'
    } else if d == 7 {
        '7'
    } else if d == 8 {
        '8'
    } else {
        '9'
    }
}

/// The decimal notation of `n`, without leading zeros (except for 0 itself).
pub open spec fn dec_str(n: nat) -> Seq<char>
    decreases n,
{
    if n < 10 {
        seq![dec_digit(n)]
    } else {
        dec_str(n / 10).push(dec_digit(n % 10))
    }
}

/// Append one decimal digit to a string.
fn append_digit(s: &mut String, d: usize)
    requires
        d < 10,
    ensures
        final (s)@ == old(s)@.push(dec_digit(d as nat)),
{
    match d {
        0 => s.append("0"),
        1 => s.append("1"),
        2 => s.append("2"),
        3 => s.append("3"),
        4 => s.append("4"),
        5 => s.append("5"),
        6 => s.append("6"),
        7 => s.append("7"),
        8 => s.append("8"),
        _ => s.append("9"),
    }
    proof {
        reveal_strlit("0");
        reveal_strlit("1");
        reveal_strlit("2");
        reveal_strlit("3");
        reveal_strlit("4");
        reveal_strlit("5");
        reveal_strlit("6");
        reveal_strlit("7");
        reveal_strlit("8");
        reveal_strlit("9");
        assert(final (s)@ =~= old(s)@.push(dec_digit(d as nat)));
    }
}

/// Append the decimal notation of `n` to a string.
pub fn push_dec(s: &mut String, n: usize)
    ensures
        final (s)@ == old(s)@ + dec_str(n as nat),
    decreases n,
{
    if n < 10 {
        append_digit(s, n);
        proof {
            assert(final (s)@ =~= old(s)@ + dec_str(n as nat));
        }
    } else {
        push_dec(s, n / 10);
        append_digit(s, n % 10);
        proof {
            assert((old(s)@ + dec_str((n / 10) as nat)).push(dec_digit((n % 10) as nat)) =~= old(
                s,
            )@ + dec_str(n as nat));
        }
    }
}

/// The decimal notation of `n` as a string.
pub fn usize_to_string(n: usize) -> (r: String)
    ensures
        r@ == dec_str(n as nat),
{
    let mut s = String::new();
    push_dec(&mut s, n);
    proof {
        assert(s@ =~= dec_str(n as nat));
    }
    s
}


/// The numeric value of one decimal digit character.
pub open spec fn digit_val(c: char) -> Option<nat> {
    if c == '0' {
        Some(0 as nat)
    } else if c == '1' {
        Some(1 as nat)
    } else if c == '2' {
        Some(2 as nat)
    } else if c == '3' {
        Some(3 as nat)
    } else if c == '4' {
        Some(4 as nat)
    } else if c == '5' {
        Some(5 as nat)
    } else if c == '6' {
        Some(6 as nat)
    } else if c == '7' {
        Some(7 as nat)
    } else if c == '8' {
        Some(8 as nat)
    } else if c == '9' {
        Some(9 as nat)
    } else {
        None
    }
}

/// The value of a non-empty all-digit text, read in decimal.
pub open spec fn dec_val(s: Seq<char>) -> Option<nat>
    decreases s.len(),
{
    if s.len() == 0 {
        None
    } else if s.len() == 1 {
        digit_val(s[0])
    } else {
        match (dec_val(s.drop_last()), digit_val(s.last())) {
            (Some(h), Some(d)) => Some(h * 10 + d),
            _ => None,
        }
    }
}

/// The value, or zero where there is none; a shorthand for bounds.
pub open spec fn dec_val_or_zero(s: Seq<char>) -> nat {
    match dec_val(s) {
        Some(v) => v,
        None => 0 as nat,
    }
}

/// A text whose prefix has no decimal value has none either.
proof fn lemma_dec_val_extend_none(s: Seq<char>, k: int)
    requires
        1 <= k <= s.len(),
        dec_val(s.take(k)) is None,
    ensures
        dec_val(s) is None,
    decreases s.len() - k,
{
    if k == s.len() {
        assert(s.take(k) =~= s);
    } else {
        assert(s.take(k + 1).drop_last() =~= s.take(k));
        assert(dec_val(s.take(k + 1)) is None);
        lemma_dec_val_extend_none(s, k + 1);
    }
}

/// The value of a prefix never exceeds the value of the whole text.
proof fn lemma_dec_val_prefix_le(s: Seq<char>, k: int)
    requires
        1 <= k <= s.len(),
        dec_val(s) is Some,
    ensures
        dec_val(s.take(k)) is Some,
        dec_val_or_zero(s.take(k)) <= dec_val_or_zero(s),
    decreases s.len() - k,
{
    if k == s.len() {
        assert(s.take(k) =~= s);
    } else {
        lemma_dec_val_prefix_le(s, k + 1);
        assert(s.take(k + 1).drop_last() =~= s.take(k));
        assert(s.take(k + 1).len() >= 2);
    }
}

/// Parse the first `end` characters as a decimal number. Anything but
/// digits, or a value that does not fit the machine, yields nothing.
#[verifier::loop_isolation(false)]
pub fn parse_dec_prefix(chars: &Vec<char>, end: usize) -> (r: Option<usize>)
    requires
        end <= chars@.len(),
    ensures
        match dec_val(chars@.take(end as int)) {
            Some(v) => if v <= usize::MAX as nat {
                r == Some(v as usize)
            } else {
                r is None
            },
            None => r is None,
        },
{
    if end == 0 {
        return None;
    }
    let mut acc: usize = 0;
    let mut i: usize = 0;
    while i < end
        invariant
            0 <= i <= end,
            i == 0 ==> acc == 0,
            i >= 1 ==> dec_val(chars@.take(i as int)) == Some(acc as nat),
        decreases end - i,
    {
        let c = chars[i];
        let d: usize = if c == '0' {
            0
        } else if c == '1' {
            1
        } else if c == '2' {
            2
        } else if c == '3' {
            3
        } else if c == '4' {
            4
        } else if c == '5' {
            5
        } else if c == '6' {
            6
        } else if c == '7' {
            7
        } else if c == '8' {
            8
        } else if c == '9' {
            9
        } else {
            proof {
                assert(digit_val(chars@[i as int]) is None);
                if i == 0 {
                    assert(chars@.take(1).len() == 1);
                    assert(dec_val(chars@.take(1)) is None);
                } else {
                    assert(chars@.take(i + 1).drop_last() =~= chars@.take(i as int));
                    assert(chars@.take(i + 1).last() == chars@[i as int]);
                    assert(dec_val(chars@.take(i + 1)) is None);
                }
                assert(chars@.take(end as int).take(i + 1) =~= chars@.take(i + 1));
                lemma_dec_val_extend_none(chars@.take(end as int), i + 1);
            }
            return None;
        };
        proof {
            assert(digit_val(chars@[i as int]) == Some(d as nat));
            if i == 0 {
                assert(chars@.take(1).len() == 1);
                assert(dec_val(chars@.take(1)) == Some(d as nat));
            } else {
                assert(chars@.take(i + 1).drop_last() =~= chars@.take(i as int));
                assert(chars@.take(i + 1).last() == chars@[i as int]);
                assert(dec_val(chars@.take(i + 1)) == Some((acc as nat) * 10 + d as nat));
            }
        }
        let wide: u128 = (acc as u128) * 10 + (d as u128);
        if wide > (usize::MAX as u128) {
            proof {
                assert(chars@.take(end as int).take(i + 1) =~= chars@.take(i + 1));
                if dec_val(chars@.take(end as int)) is Some {
                    lemma_dec_val_prefix_le(chars@.take(end as int), i + 1);
                }
            }
            return None;
        }
        acc = wide as usize;
        i += 1;
    }
    proof {
        assert(i == end);
    }
    Some(acc)
}

} // verus!
