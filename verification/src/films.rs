//! The film listing: classify each entry of the films directory against
//! the Film pattern and order the hits by year, newest first. Names that
//! do not classify are handed back for the caller to warn about.

use vstd::prelude::*;

use crate::chars::lemma_lex_transitive;
use crate::chars::lemma_lex_trichotomy;
use crate::chars::lex_lt;
use crate::chars::str_lt;
use crate::film::film_matches;
use crate::film::film_title;
use crate::film::film_year;
use crate::film::lemma_film_year_bound;
use crate::film::match_film;

verus! {

/// A film directory entry: the raw name, the captured title, and the
/// captured year.
pub struct FilmEntry {
    pub raw_name: String,
    pub title: String,
    pub year: u32,
}

/// The classified entries of a listing, in listing order, as view
/// triples of raw name, title and year.
pub open spec fn film_entries(names: Seq<String>) -> Seq<(Seq<char>, Seq<char>, int)>
    decreases names.len(),
{
    if names.len() == 0 {
        Seq::empty()
    } else {
        film_entries(names.drop_last()) + if film_matches(names.last()@) {
            seq![(names.last()@, film_title(names.last()@), film_year(names.last()@))]
        } else {
            Seq::empty()
        }
    }
}

/// The names of a listing that fail the Film pattern, in listing order.
pub open spec fn unmatched_films(names: Seq<String>) -> Seq<Seq<char>>
    decreases names.len(),
{
    if names.len() == 0 {
        Seq::empty()
    } else {
        unmatched_films(names.drop_last()) + if film_matches(names.last()@) {
            Seq::empty()
        } else {
            seq![names.last()@]
        }
    }
}

/// The view triple of a film entry.
pub open spec fn film_entry_view(e: FilmEntry) -> (Seq<char>, Seq<char>, int) {
    (e.raw_name@, e.title@, e.year as int)
}

/// The listing order of the report: by year, newest first; equal years
/// by raw name, lexicographically. Reflexive over entries whose keys
/// coincide, so the order does not depend on the listing order handed
/// in.
pub open spec fn film_listed_before(x: FilmEntry, y: FilmEntry) -> bool {
    ||| x.year > y.year
    ||| (x.year == y.year && (lex_lt(x.raw_name@, y.raw_name@) || x.raw_name@ == y.raw_name@))
}

/// The listing order is transitive.
proof fn lemma_film_listed_before_transitive(x: FilmEntry, y: FilmEntry, z: FilmEntry)
    requires
        film_listed_before(x, y),
        film_listed_before(y, z),
    ensures
        film_listed_before(x, z),
{
    if x.year == y.year && y.year == z.year {
        if lex_lt(x.raw_name@, y.raw_name@) && lex_lt(y.raw_name@, z.raw_name@) {
            lemma_lex_transitive(x.raw_name@, y.raw_name@, z.raw_name@);
        }
    }
}

/// Lists the films of a directory listing: the entries that classify,
/// ordered by year descending with equal years ordered by name, and the
/// names that do not classify, in listing order.
pub fn list_films(names: &Vec<String>) -> (r: (Vec<FilmEntry>, Vec<String>))
    ensures
        r.0@.map_values(|e: FilmEntry| film_entry_view(e)).to_multiset() == film_entries(
            names@,
        ).to_multiset(),
        forall|a: int, b: int|
            0 <= a < b < r.0@.len() ==> film_listed_before(#[trigger] r.0@[a], #[trigger] r.0@[b]),
        forall|a: int, b: int| 0 <= a < b < r.0@.len() ==> r.0@[a].year >= r.0@[b].year,
        r.1@.map_values(|s: String| s@) == unmatched_films(names@),
{
    broadcast use vstd::seq_lib::group_to_multiset_ensures;

    let n = names.len();
    let mut collected: Vec<FilmEntry> = Vec::new();
    let mut unmatched: Vec<String> = Vec::new();
    let mut i: usize = 0;
    assert(names@.subrange(0, 0) =~= Seq::<String>::empty());
    assert(collected@.map_values(|e: FilmEntry| film_entry_view(e)) =~= film_entries(
        names@.subrange(0, 0),
    ));
    assert(unmatched@.map_values(|s: String| s@) =~= unmatched_films(names@.subrange(0, 0)));
    while i < n
        invariant
            i <= n == names@.len(),
            collected@.map_values(|e: FilmEntry| film_entry_view(e)) == film_entries(
                names@.subrange(0, i as int),
            ),
            unmatched@.map_values(|s: String| s@) == unmatched_films(names@.subrange(0, i as int)),
        decreases n - i,
    {
        proof {
            let t = names@.subrange(0, i + 1);
            assert(t.drop_last() =~= names@.subrange(0, i as int));
            assert(t.last() == names@[i as int]);
        }
        let ghost col_before = collected@;
        let ghost un_before = unmatched@;
        match match_film(names[i].as_str()) {
            Some(c) => {
                proof {
                    lemma_film_year_bound(names@[i as int]@);
                }
                let entry = FilmEntry { raw_name: names[i].clone(), title: c.title, year: c.year };
                collected.push(entry);
                proof {
                    assert(collected@.map_values(|e: FilmEntry| film_entry_view(e))
                        =~= col_before.map_values(|e: FilmEntry| film_entry_view(e)).push(
                        (names@[i as int]@, film_title(names@[i as int]@), film_year(
                            names@[i as int]@,
                        )),
                    ));
                }
            },
            None => {
                unmatched.push(names[i].clone());
                proof {
                    assert(unmatched@.map_values(|s: String| s@) =~= un_before.map_values(
                        |s: String| s@,
                    ).push(names@[i as int]@));
                }
            },
        }
        i += 1;
    }
    assert(names@.subrange(0, n as int) =~= names@);
    // Order by year, newest first: repeatedly move the earliest
    // largest-year entry over.
    let ghost whole = film_entries(names@).to_multiset();
    let mut rem = collected;
    let mut out: Vec<FilmEntry> = Vec::new();
    proof {
        assert(out@.map_values(|e: FilmEntry| film_entry_view(e)).to_multiset().add(
            rem@.map_values(|e: FilmEntry| film_entry_view(e)).to_multiset(),
        ) =~= whole);
    }
    while rem.len() > 0
        invariant
            out@.map_values(|e: FilmEntry| film_entry_view(e)).to_multiset().add(
                rem@.map_values(|e: FilmEntry| film_entry_view(e)).to_multiset(),
            ) == whole,
            forall|a: int, b: int|
                0 <= a < b < out@.len() ==> film_listed_before(
                    #[trigger] out@[a],
                    #[trigger] out@[b],
                ),
            forall|a: int, b: int|
                0 <= a < out@.len() && 0 <= b < rem@.len() ==> film_listed_before(
                    #[trigger] out@[a],
                    #[trigger] rem@[b],
                ),
        decreases rem@.len(),
    {
        let m = rem.len();
        let mut mi: usize = 0;
        let mut j: usize = 1;
        while j < m
            invariant
                mi < j <= m == rem@.len(),
                forall|k: int|
                    0 <= k < j ==> film_listed_before(rem@[mi as int], #[trigger] rem@[k]),
            decreases m - j,
        {
            let advance = rem[j].year > rem[mi].year || (rem[j].year == rem[mi].year && str_lt(
                rem[j].raw_name.as_str(),
                rem[mi].raw_name.as_str(),
            ));
            proof {
                let old_mi = mi as int;
                if advance {
                    assert(film_listed_before(rem@[j as int], rem@[old_mi]));
                    assert forall|k: int| 0 <= k < j implies film_listed_before(
                        rem@[j as int],
                        rem@[k],
                    ) by {
                        lemma_film_listed_before_transitive(rem@[j as int], rem@[old_mi], rem@[k]);
                    }
                } else {
                    lemma_lex_trichotomy(rem@[mi as int].raw_name@, rem@[j as int].raw_name@);
                    assert(film_listed_before(rem@[mi as int], rem@[j as int]));
                }
            }
            if advance {
                mi = j;
            }
            j += 1;
        }
        let ghost rem_before = rem@;
        let ghost out_before = out@;
        let e = rem.remove(mi);
        out.push(e);
        proof {
            broadcast use vstd::multiset::group_multiset_axioms;

            assert(rem@ == rem_before.remove(mi as int));
            assert(forall|k: int| 0 <= k < mi ==> rem@[k] == rem_before[k]);
            assert(forall|k: int| mi <= k < rem@.len() ==> rem@[k] == rem_before[k + 1]);
            let f = |e: FilmEntry| film_entry_view(e);
            let a = out_before.map_values(f);
            let b = rem_before.map_values(f);
            let x = f(rem_before[mi as int]);
            assert(b[mi as int] == x);
            assert(rem@.map_values(f) =~= b.remove(mi as int));
            assert(out@.map_values(f) =~= a.push(x));
            vstd::seq_lib::to_multiset_build(a, x);
            vstd::seq_lib::to_multiset_remove(b, mi as int);
            b.to_multiset_ensures();
            assert(b.contains(x));
            assert(b.to_multiset().count(x) > 0);
            assert(out@.map_values(f).to_multiset() == a.to_multiset().insert(x));
            assert(rem@.map_values(f).to_multiset() == b.to_multiset().remove(x));
            assert(a.to_multiset().insert(x).add(b.to_multiset().remove(x)) =~= a.to_multiset()
                .add(b.to_multiset()));
        }
    }
    (out, unmatched)
}

} // verus!
