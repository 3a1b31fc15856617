//! The Film naming pattern: `<title> (<year>)`, anchored to the whole
//! name, with `year` exactly four digits and a non-empty title separated
//! from the parenthesis by whitespace. The title is the longest prefix
//! that leaves a whitespace run before the `(`; it may contain anything
//! but a line feed.

use vstd::prelude::*;

use crate::chars::digit_at;
use crate::chars::digits_between;
use crate::chars::digits_val;
use crate::chars::is_digit_char;
use crate::chars::is_space_char;
use crate::chars::lemma_digits_val_bound;
use crate::chars::parse_digits_u32;
use crate::chars::pow10;
use crate::chars::space_at;
use crate::chars::spaces_between;
use crate::chars::text_between;

verus! {

/// A name classified as a film: the title and the four-digit year.
pub struct FilmCapture {
    pub title: String,
    pub year: u32,
}

/// The name ends in `(dddd)`: an opening parenthesis, four digits, a
/// closing parenthesis.
pub open spec fn film_tail_ok(s: Seq<char>) -> bool {
    &&& s.len() >= 8
    &&& s[s.len() - 6] == '('
    &&& digits_between(s, s.len() - 5, s.len() - 1)
    &&& s[s.len() - 1] == ')'
}

/// The name splits as film at `k`: a non-empty line-feed-free title
/// `s[..k]`, then a non-empty whitespace run, then the `(dddd)` tail.
pub open spec fn film_split_at(s: Seq<char>, k: int) -> bool {
    &&& film_tail_ok(s)
    &&& 1 <= k <= s.len() - 7
    &&& text_between(s, 0, k)
    &&& spaces_between(s, k, s.len() - 6)
}

/// The name matches the Film pattern.
pub open spec fn film_matches(s: Seq<char>) -> bool {
    exists|k: int| film_split_at(s, k)
}

/// The split that captures the title: the largest valid split. It is the
/// largest exactly when either no separating whitespace is left to give
/// to the title, or the next character is a line feed the title may not
/// hold.
pub open spec fn film_max_split(s: Seq<char>, k: int) -> bool {
    film_split_at(s, k) && (k == s.len() - 7 || s[k] == '\n')
}

/// The captured title of a film name.
pub open spec fn film_title(s: Seq<char>) -> Seq<char> {
    s.subrange(0, choose|k: int| film_max_split(s, k))
}

/// The captured year of a film name.
pub open spec fn film_year(s: Seq<char>) -> int {
    digits_val(s.subrange(s.len() - 5, s.len() - 1))
}

/// At most one split is the largest.
pub proof fn lemma_film_max_split_unique(s: Seq<char>, k1: int, k2: int)
    requires
        film_max_split(s, k1),
        film_max_split(s, k2),
    ensures
        k1 == k2,
{
    if k1 < k2 {
        assert(s[k1] == '\n');
        assert(is_space_char(s[k1]));
    }
    if k2 < k1 {
        assert(s[k2] == '\n');
        assert(is_space_char(s[k2]));
    }
}

/// The captured year is at most four digits' worth.
pub proof fn lemma_film_year_bound(s: Seq<char>)
    requires
        film_tail_ok(s),
    ensures
        0 <= film_year(s) <= 9999,
{
    let d = s.subrange(s.len() - 5, s.len() - 1);
    assert(digits_between(d, 0, d.len() as int));
    lemma_digits_val_bound(d);
    assert(pow10(4) == 10000) by {
        assert(pow10(0) == 1);
        assert(pow10(1) == 10);
        assert(pow10(2) == 100);
        assert(pow10(3) == 1000);
    }
}

/// A name written as `<title> (<year>)` — any title that holds no line
/// feed and does not end in whitespace, a single space, and exactly four
/// digits in parentheses — classifies as a film, and the classification
/// recovers the title and the year exactly.
pub proof fn lemma_film_classification_exact(t: Seq<char>, y: Seq<char>)
    requires
        t.len() >= 1,
        text_between(t, 0, t.len() as int),
        !is_space_char(t.last()),
        y.len() == 4,
        digits_between(y, 0, 4),
    ensures
        film_matches(t + seq![' ', '('] + y + seq![')']),
        film_title(t + seq![' ', '('] + y + seq![')']) == t,
        film_year(t + seq![' ', '('] + y + seq![')']) == digits_val(y),
{
    let s = t + seq![' ', '('] + y + seq![')'];
    let tl = t.len() as int;
    assert(s.len() == tl + 7);
    assert(forall|i: int| 0 <= i < tl ==> s[i] == t[i]);
    assert(s[tl] == ' ' && s[tl + 1] == '(');
    assert(forall|i: int| 0 <= i < 4 ==> s[tl + 2 + i] == y[i]);
    assert(s[tl + 6] == ')');
    assert(film_tail_ok(s)) by {
        assert(forall|j: int| s.len() - 5 <= j < s.len() - 1
            ==> is_digit_char(#[trigger] s[j]));
    }
    assert(film_split_at(s, tl)) by {
        assert(forall|j: int| tl <= j < s.len() - 6 ==> is_space_char(#[trigger] s[j]));
    }
    assert(film_max_split(s, tl));
    let m = choose|m: int| film_max_split(s, m);
    lemma_film_max_split_unique(s, m, tl);
    assert(s.subrange(0, tl) =~= t);
    assert(s.subrange(s.len() - 5, s.len() - 1) =~= y);
}

/// Classifies `name` against the Film pattern: the capture record on a
/// full match, nothing on a non-match.
pub fn match_film(name: &str) -> (r: Option<FilmCapture>)
    ensures
        r is Some <==> film_matches(name@),
        r matches Some(c) ==> {
            &&& c.title@ == film_title(name@)
            &&& c.year == film_year(name@)
            &&& film_max_split(name@, c.title@.len() as int)
        },
{
    let n = name.unicode_len();
    if n < 8 {
        return None;
    }
    if name.get_char(n - 6) != '(' || name.get_char(n - 1) != ')' {
        return None;
    }
    let mut i = n - 5;
    while i < n - 1
        invariant
            n == name@.len(),
            8 <= n,
            n - 5 <= i <= n - 1,
            digits_between(name@, n - 5, i as int),
        decreases n - 1 - i,
    {
        if !digit_at(name, i) {
            return None;
        }
        i += 1;
    }
    if !space_at(name, n - 7) {
        // Every split's whitespace run covers position `n - 7`.
        assert(forall|k: int| !film_split_at(name@, k));
        return None;
    }
    // The start of the whitespace run that ends at the parenthesis.
    let mut j0 = n - 7;
    while j0 > 0 && space_at(name, j0 - 1)
        invariant
            n == name@.len(),
            8 <= n,
            j0 <= n - 7,
            spaces_between(name@, j0 as int, n - 6),
        decreases j0,
    {
        j0 -= 1;
    }
    // The first line feed before the whitespace run's last position.
    let mut f: usize = 0;
    while f < n - 7 && name.get_char(f) != '\n'
        invariant
            n == name@.len(),
            8 <= n,
            f <= n - 7,
            text_between(name@, 0, f as int),
        decreases n - 7 - f,
    {
        f += 1;
    }
    let found = f < n - 7;
    proof {
        if found {
            assert(name@[f as int] == '\n');
        }
    }
    // The captured split: as far right as the line feed (if any) allows.
    let k = f;
    if k < 1 || j0 > k {
        proof {
            assert forall|j: int| !film_split_at(name@, j) by {
                if film_split_at(name@, j) {
                    // The title bars line feeds, so j stays at or left of k.
                    assert(j <= k as int) by {
                        if j > k as int {
                            assert(found && name@[k as int] == '\n');
                            assert(!text_between(name@, 0, j));
                        }
                    }
                    // The whitespace run cannot reach left of j0.
                    assert(j >= j0 as int) by {
                        if j < j0 as int {
                            assert(j0 > 0 && !is_space_char(name@[j0 - 1]));
                            assert(spaces_between(name@, j, n - 6));
                            assert(is_space_char(name@[j0 - 1]));
                        }
                    }
                }
            }
        }
        return None;
    }
    let year = match parse_digits_u32(name, n - 5, n - 1) {
        Some(y) => y,
        None => {
            proof {
                lemma_film_year_bound(name@);
            }
            // Four digits always fit; this branch cannot be reached.
            return None;
        },
    };
    let title = name.substring_char(0, k).to_owned();
    proof {
        assert(film_split_at(name@, k as int));
        assert(film_max_split(name@, k as int));
        let m = choose|m: int| film_max_split(name@, m);
        lemma_film_max_split_unique(name@, m, k as int);
        assert(title@ =~= film_title(name@));
    }
    Some(FilmCapture { title, year })
}

} // verus!
