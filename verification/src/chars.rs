//! Character classes and low-level scanning primitives that the naming
//! patterns are built from: digit runs, digit-sequence values, the last
//! dot of a name, and range predicates over a name's characters.

use vstd::prelude::*;

verus! {

/// Whitespace, as the naming patterns understand it: the characters
/// with Unicode's White_Space property — the ASCII whitespace, next
/// line, no-break space, ogham space mark, the typographic spaces, the
/// line and paragraph separators, narrow no-break space, medium
/// mathematical space, and ideographic space.
pub open spec fn is_space_char(c: char) -> bool {
    let u = c as u32;
    ||| (9 <= u && u <= 13)
    ||| u == 32
    ||| u == 0x85
    ||| u == 0xA0
    ||| u == 0x1680
    ||| (0x2000 <= u && u <= 0x200A)
    ||| u == 0x2028
    ||| u == 0x2029
    ||| u == 0x202F
    ||| u == 0x205F
    ||| u == 0x3000
}

/// A decimal digit.
pub open spec fn is_digit_char(c: char) -> bool {
    48 <= c as u32 && c as u32 <= 57
}

/// Whether `c` counts as alphanumeric in Unicode's sense: a letter or a
/// number, in any script.
pub uninterp spec fn unicode_alnum(c: char) -> bool;

/// Relies on char::is_alphanumeric: whether the character is a Unicode
/// letter or number. The result depends on the character alone.
#[verifier::external_body]
fn char_is_alnum(c: char) -> (r: bool)
    ensures
        r == unicode_alnum(c),
{
    c.is_alphanumeric()
}

/// A word character: a Unicode letter or number, or the underscore.
/// (Combining marks, connector punctuation other than the underscore,
/// and join controls are not admitted.)
pub open spec fn is_word_char(c: char) -> bool {
    unicode_alnum(c) || c == '_'
}

/// A character that free-text fields (titles, names) may contain:
/// anything but a line feed.
pub open spec fn is_text_char(c: char) -> bool {
    c != '\n'
}

/// Every character of `s` in `[from, to)` is a digit.
pub open spec fn digits_between(s: Seq<char>, from: int, to: int) -> bool {
    forall|j: int| from <= j < to ==> is_digit_char(#[trigger] s[j])
}

/// Every character of `s` in `[from, to)` is whitespace.
pub open spec fn spaces_between(s: Seq<char>, from: int, to: int) -> bool {
    forall|j: int| from <= j < to ==> is_space_char(#[trigger] s[j])
}

/// Every character of `s` in `[from, to)` is a word character.
pub open spec fn words_between(s: Seq<char>, from: int, to: int) -> bool {
    forall|j: int| from <= j < to ==> is_word_char(#[trigger] s[j])
}

/// Every character of `s` in `[from, to)` is free-text (no line feed).
pub open spec fn text_between(s: Seq<char>, from: int, to: int) -> bool {
    forall|j: int| from <= j < to ==> is_text_char(#[trigger] s[j])
}

/// The numeric value of a digit sequence read in base ten.
pub open spec fn digits_val(s: Seq<char>) -> int
    decreases s.len(),
{
    if s.len() == 0 {
        0
    } else {
        10 * digits_val(s.drop_last()) + (s.last() as u32 - 48)
    }
}

/// The end of the digit run of `s` that starts at `i`: the first index at
/// or after `i` holding a non-digit, or the length of `s`.
pub open spec fn digit_run_end(s: Seq<char>, i: int) -> int
    decreases s.len() - i when 0 <= i <= s.len()
{
    if 0 <= i < s.len() && is_digit_char(s[i]) {
        digit_run_end(s, i + 1)
    } else {
        i
    }
}

/// The index of the last `'.'` of `s`, or `-1` if `s` has none.
pub open spec fn last_dot(s: Seq<char>) -> int
    decreases s.len(),
{
    if s.len() == 0 {
        -1
    } else if s.last() == '.' {
        s.len() - 1
    } else {
        last_dot(s.drop_last())
    }
}

/// A digit sequence's value is nonnegative.
pub proof fn lemma_digits_val_nonneg(s: Seq<char>)
    requires
        digits_between(s, 0, s.len() as int),
    ensures
        digits_val(s) >= 0,
    decreases s.len(),
{
    if s.len() > 0 {
        assert(digits_between(s.drop_last(), 0, s.len() - 1));
        lemma_digits_val_nonneg(s.drop_last());
    }
}

/// Extending a digit sequence on the right can only grow its value.
pub proof fn lemma_digits_val_prefix(s: Seq<char>, k: int)
    requires
        digits_between(s, 0, s.len() as int),
        0 <= k <= s.len(),
    ensures
        digits_val(s.subrange(0, k)) <= digits_val(s),
    decreases s.len() - k,
{
    if k == s.len() {
        assert(s.subrange(0, k) =~= s);
    } else {
        lemma_digits_val_prefix(s, k + 1);
        let t = s.subrange(0, k + 1);
        assert(t.drop_last() =~= s.subrange(0, k));
        assert(digits_between(s.subrange(0, k), 0, k));
        lemma_digits_val_nonneg(s.subrange(0, k));
        assert(digits_val(t) == 10 * digits_val(s.subrange(0, k)) + (t.last() as u32 - 48));
    }
}

/// Ten to the `n`.
pub open spec fn pow10(n: nat) -> int
    decreases n,
{
    if n == 0 {
        1
    } else {
        10 * pow10((n - 1) as nat)
    }
}

/// A digit sequence of length `n` has a value below ten to the `n`.
pub proof fn lemma_digits_val_bound(s: Seq<char>)
    requires
        digits_between(s, 0, s.len() as int),
    ensures
        0 <= digits_val(s) < pow10(s.len()),
    decreases s.len(),
{
    if s.len() > 0 {
        assert(digits_between(s.drop_last(), 0, s.len() - 1));
        lemma_digits_val_bound(s.drop_last());
    }
}

/// The digit-run end is the unique index that closes a digit run.
pub proof fn lemma_digit_run_end_is(s: Seq<char>, i: int, e: int)
    requires
        0 <= i <= e <= s.len(),
        digits_between(s, i, e),
        e == s.len() || !is_digit_char(s[e]),
    ensures
        digit_run_end(s, i) == e,
    decreases e - i,
{
    if i < e {
        lemma_digit_run_end_is(s, i + 1, e);
    }
}

/// Bounds of the digit-run end, and the run it closes.
pub proof fn lemma_digit_run_end_props(s: Seq<char>, i: int)
    requires
        0 <= i <= s.len(),
    ensures
        i <= digit_run_end(s, i) <= s.len(),
        digits_between(s, i, digit_run_end(s, i)),
        digit_run_end(s, i) == s.len() || !is_digit_char(s[digit_run_end(s, i)]),
    decreases s.len() - i,
{
    if i < s.len() && is_digit_char(s[i]) {
        lemma_digit_run_end_props(s, i + 1);
    }
}

/// The character count of `s`.
pub fn str_len(s: &str) -> (n: usize)
    ensures
        n == s@.len(),
{
    s.unicode_len()
}

/// Whether the character at `i` is a digit.
pub fn digit_at(s: &str, i: usize) -> (r: bool)
    requires
        i < s@.len(),
    ensures
        r == is_digit_char(s@[i as int]),
{
    let c = s.get_char(i) as u32;
    48 <= c && c <= 57
}

/// Whether the character at `i` is whitespace.
pub fn space_at(s: &str, i: usize) -> (r: bool)
    requires
        i < s@.len(),
    ensures
        r == is_space_char(s@[i as int]),
{
    let u = s.get_char(i) as u32;
    (9 <= u && u <= 13) || u == 32 || u == 0x85 || u == 0xA0 || u == 0x1680
        || (0x2000 <= u && u <= 0x200A) || u == 0x2028 || u == 0x2029 || u == 0x202F
        || u == 0x205F || u == 0x3000
}

/// Whether the character at `i` is a word character.
pub fn word_at(s: &str, i: usize) -> (r: bool)
    requires
        i < s@.len(),
    ensures
        r == is_word_char(s@[i as int]),
{
    let c = s.get_char(i);
    char_is_alnum(c) || c == '_'
}

/// Whether every character in `[from, to)` is free-text (no line feed).
pub fn text_range(s: &str, from: usize, to: usize) -> (r: bool)
    requires
        from <= to <= s@.len(),
    ensures
        r == text_between(s@, from as int, to as int),
{
    let mut i = from;
    while i < to
        invariant
            from <= i <= to <= s@.len(),
            text_between(s@, from as int, i as int),
        decreases to - i,
    {
        if s.get_char(i) == '\n' {
            return false;
        }
        i += 1;
    }
    true
}

/// Whether every character in `[from, to)` is whitespace.
pub fn space_range(s: &str, from: usize, to: usize) -> (r: bool)
    requires
        from <= to <= s@.len(),
    ensures
        r == spaces_between(s@, from as int, to as int),
{
    let mut i = from;
    while i < to
        invariant
            from <= i <= to <= s@.len(),
            spaces_between(s@, from as int, i as int),
        decreases to - i,
    {
        if !space_at(s, i) {
            return false;
        }
        i += 1;
    }
    true
}

/// Whether every character in `[from, to)` is a word character.
pub fn word_range(s: &str, from: usize, to: usize) -> (r: bool)
    requires
        from <= to <= s@.len(),
    ensures
        r == words_between(s@, from as int, to as int),
{
    let mut i = from;
    while i < to
        invariant
            from <= i <= to <= s@.len(),
            words_between(s@, from as int, i as int),
        decreases to - i,
    {
        if !word_at(s, i) {
            return false;
        }
        i += 1;
    }
    true
}

/// The end of the digit run starting at `i`, computed by scanning.
pub fn digit_run_end_exec(s: &str, i: usize) -> (e: usize)
    requires
        i <= s@.len(),
    ensures
        e == digit_run_end(s@, i as int),
        i <= e <= s@.len(),
{
    let n = s.unicode_len();
    let mut e = i;
    while e < n && digit_at(s, e)
        invariant
            i <= e <= n == s@.len(),
            digits_between(s@, i as int, e as int),
        decreases n - e,
    {
        e += 1;
    }
    proof {
        lemma_digit_run_end_is(s@, i as int, e as int);
    }
    e
}

/// The index of the last `'.'` of `s`, if any.
pub fn last_dot_exec(s: &str) -> (r: Option<usize>)
    ensures
        match r {
            Some(p) => p == last_dot(s@) && p < s@.len(),
            None => last_dot(s@) == -1,
        },
{
    let n = s.unicode_len();
    let mut i = n;
    while i > 0
        invariant
            i <= n == s@.len(),
            forall|j: int| i <= j < s@.len() ==> #[trigger] s@[j] != '.',
        decreases i,
    {
        i -= 1;
        if s.get_char(i) == '.' {
            proof {
                lemma_last_dot_is(s@, i as int);
            }
            return Some(i);
        }
    }
    proof {
        lemma_last_dot_none(s@);
    }
    None
}

/// A dot with none after it is the last dot.
proof fn lemma_last_dot_is(s: Seq<char>, p: int)
    requires
        0 <= p < s.len(),
        s[p] == '.',
        forall|j: int| p < j < s.len() ==> #[trigger] s[j] != '.',
    ensures
        last_dot(s) == p,
    decreases s.len(),
{
    if s.last() != '.' {
        assert(forall|j: int| 0 <= j < s.len() - 1 ==> s.drop_last()[j] == s[j]);
        lemma_last_dot_is(s.drop_last(), p);
    }
}

/// A string with no dot at all has no last dot.
proof fn lemma_last_dot_none(s: Seq<char>)
    requires
        forall|j: int| 0 <= j < s.len() ==> #[trigger] s[j] != '.',
    ensures
        last_dot(s) == -1,
    decreases s.len(),
{
    if s.len() > 0 {
        assert(forall|j: int| 0 <= j < s.len() - 1 ==> s.drop_last()[j] == s[j]);
        lemma_last_dot_none(s.drop_last());
    }
}

/// Parses the all-digit span `[from, to)` of `s` in base ten. Returns the
/// value, or `None` where it would not fit the result type.
pub fn parse_digits_u32(s: &str, from: usize, to: usize) -> (r: Option<u32>)
    requires
        from <= to <= s@.len(),
        digits_between(s@, from as int, to as int),
    ensures
        match r {
            Some(v) => v == digits_val(s@.subrange(from as int, to as int)),
            None => digits_val(s@.subrange(from as int, to as int)) > u32::MAX,
        },
{
    let mut i = from;
    let mut val: u64 = 0;
    while i < to
        invariant
            from <= i <= to <= s@.len(),
            digits_between(s@, from as int, to as int),
            val <= u32::MAX,
            val == digits_val(s@.subrange(from as int, i as int)),
        decreases to - i,
    {
        let d = s.get_char(i) as u32;
        let next: u64 = val * 10 + (d - 48) as u64;
        proof {
            let t = s@.subrange(from as int, i + 1);
            assert(t.drop_last() =~= s@.subrange(from as int, i as int));
            assert(t.last() == s@[i as int]);
        }
        if next > u32::MAX as u64 {
            proof {
                let whole = s@.subrange(from as int, to as int);
                assert(digits_between(whole, 0, whole.len() as int));
                lemma_digits_val_subrange_prefix(s@, from as int, i + 1, to as int);
            }
            return None;
        }
        val = next;
        i += 1;
    }
    assert(s@.subrange(from as int, i as int) =~= s@.subrange(from as int, to as int));
    Some(val as u32)
}

/// A prefix of a digit span is worth no more than the whole span.
proof fn lemma_digits_val_subrange_prefix(s: Seq<char>, from: int, mid: int, to: int)
    requires
        0 <= from <= mid <= to <= s.len(),
        digits_between(s, from, to),
    ensures
        digits_val(s.subrange(from, mid)) <= digits_val(s.subrange(from, to)),
{
    let whole = s.subrange(from, to);
    assert(digits_between(whole, 0, whole.len() as int));
    assert(whole.subrange(0, mid - from) =~= s.subrange(from, mid));
    lemma_digits_val_prefix(whole, mid - from);
}

/// Whether `a` comes strictly before `b` in lexicographic order by code
/// point, a proper prefix before what extends it.
pub open spec fn lex_lt(a: Seq<char>, b: Seq<char>) -> bool
    decreases a.len(),
{
    if b.len() == 0 {
        false
    } else if a.len() == 0 {
        true
    } else if (a.first() as u32) < (b.first() as u32) {
        true
    } else if (a.first() as u32) > (b.first() as u32) {
        false
    } else {
        lex_lt(a.drop_first(), b.drop_first())
    }
}

/// Two strings compare some way: one before the other, or equal.
pub proof fn lemma_lex_trichotomy(a: Seq<char>, b: Seq<char>)
    ensures
        lex_lt(a, b) || lex_lt(b, a) || a == b,
    decreases a.len(),
{
    if a.len() == 0 && b.len() == 0 {
        assert(a =~= b);
    } else if a.len() > 0 && b.len() > 0 && (a.first() as u32) == (b.first() as u32) {
        lemma_char_cast_injective(a.first(), b.first());
        lemma_lex_trichotomy(a.drop_first(), b.drop_first());
        if a.drop_first() == b.drop_first() {
            assert(a.drop_first().len() == b.drop_first().len());
            assert(a.len() == b.len());
            assert forall|k: int| 0 <= k < a.len() implies a[k] == b[k] by {
                if k >= 1 {
                    assert(a[k] == a.drop_first()[k - 1]);
                    assert(b[k] == b.drop_first()[k - 1]);
                }
            }
            assert(a =~= b);
        }
    }
}

/// Characters with the same code point are the same character.
proof fn lemma_char_cast_injective(x: char, y: char)
    requires
        x as u32 == y as u32,
    ensures
        x == y,
{
    assert(x as u32 as char == y as u32 as char);
}

/// Lexicographic order is transitive.
pub proof fn lemma_lex_transitive(a: Seq<char>, b: Seq<char>, c: Seq<char>)
    requires
        lex_lt(a, b),
        lex_lt(b, c),
    ensures
        lex_lt(a, c),
    decreases a.len(),
{
    if a.len() > 0 && b.len() > 0 && c.len() > 0 {
        if (a.first() as u32) == (b.first() as u32) && (b.first() as u32) == (c.first() as u32) {
            lemma_lex_transitive(a.drop_first(), b.drop_first(), c.drop_first());
        }
    }
}

/// Whether `a` comes strictly before `b` in lexicographic order.
pub fn str_lt(a: &str, b: &str) -> (r: bool)
    ensures
        r == lex_lt(a@, b@),
{
    let na = a.unicode_len();
    let nb = b.unicode_len();
    let mut i: usize = 0;
    assert(a@.subrange(0, na as int) =~= a@);
    assert(b@.subrange(0, nb as int) =~= b@);
    while i < na && i < nb
        invariant
            i <= na == a@.len(),
            i <= nb == b@.len(),
            lex_lt(a@, b@) == lex_lt(
                a@.subrange(i as int, na as int),
                b@.subrange(i as int, nb as int),
            ),
        decreases na - i,
    {
        proof {
            let sa = a@.subrange(i as int, na as int);
            let sb = b@.subrange(i as int, nb as int);
            assert(sa.first() == a@[i as int]);
            assert(sb.first() == b@[i as int]);
            assert(sa.drop_first() =~= a@.subrange(i + 1, na as int));
            assert(sb.drop_first() =~= b@.subrange(i + 1, nb as int));
        }
        let ca = a.get_char(i) as u32;
        let cb = b.get_char(i) as u32;
        if ca < cb {
            return true;
        }
        if ca > cb {
            return false;
        }
        i += 1;
    }
    proof {
        let sa = a@.subrange(i as int, na as int);
        let sb = b@.subrange(i as int, nb as int);
        assert(sa.len() == 0 || sb.len() == 0);
    }
    i < nb
}

} // verus!
