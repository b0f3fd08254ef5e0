//! The list of font families offered to the user: the fallback families and the
//! installed ones, normalised, without repeats, in lexicographic order.
use vstd::prelude::*;
use crate::settings::{font_family_spec, normalize_font_family};
use crate::text::{chars_of, same_chars, string_of};

verus! {

/// `a` comes strictly before `b` in lexicographic order of code points (the
/// order of `String`'s `Ord`, since UTF-8 keeps code-point order byte-wise).
pub open spec fn lex_less(a: Seq<char>, b: Seq<char>) -> bool
    decreases a.len(),
{
    if a.len() == 0 {
        b.len() > 0
    } else if b.len() == 0 {
        false
    } else if a[0] != b[0] {
        (a[0] as u32) < (b[0] as u32)
    } else {
        lex_less(a.drop_first(), b.drop_first())
    }
}

/// Every element comes strictly before every later one: sorted, no repeats.
pub open spec fn strictly_sorted(s: Seq<Seq<char>>) -> bool {
    forall|i: int, j: int| 0 <= i < j < s.len() ==> lex_less(#[trigger] s[i], #[trigger] s[j])
}

/// The fallback families, always offered.
pub open spec fn is_fallback_family(f: Seq<char>) -> bool {
    f == "Sans"@ || f == "Serif"@ || f == "Monospace"@
}

/// The views of a list of character vectors.
pub open spec fn char_lists(v: Seq<Vec<char>>) -> Seq<Seq<char>> {
    v.map_values(|x: Vec<char>| x@)
}

/// The views of a list of strings.
pub open spec fn string_views(v: Seq<String>) -> Seq<Seq<char>> {
    v.map_values(|x: String| x@)
}

proof fn lemma_lex_irreflexive(a: Seq<char>)
    ensures
        !lex_less(a, a),
    decreases a.len(),
{
    if a.len() > 0 {
        lemma_lex_irreflexive(a.drop_first());
    }
}

proof fn lemma_lex_total(a: Seq<char>, b: Seq<char>)
    ensures
        a == b || lex_less(a, b) || lex_less(b, a),
    decreases a.len(),
{
    if a.len() == 0 && b.len() == 0 {
        assert(a =~= b);
    } else if a.len() > 0 && b.len() > 0 {
        if a[0] == b[0] {
            lemma_lex_total(a.drop_first(), b.drop_first());
            if a.drop_first() == b.drop_first() {
                assert(a =~= b) by {
                    assert(a.len() == b.len());
                    assert forall|i: int| 0 <= i < a.len() implies a[i] == b[i] by {
                        if i > 0 {
                            assert(a[i] == a.drop_first()[i - 1]);
                            assert(b[i] == b.drop_first()[i - 1]);
                        }
                    }
                }
            }
        } else {
            let x = a[0] as u32;
            let y = b[0] as u32;
            if x == y {
                vstd::utf8::char_u32_cast(a[0], x);
                vstd::utf8::char_u32_cast(b[0], y);
            }
            assert(x != y);
        }
    }
}

proof fn lemma_lex_transitive(a: Seq<char>, b: Seq<char>, c: Seq<char>)
    requires
        lex_less(a, b),
        lex_less(b, c),
    ensures
        lex_less(a, c),
    decreases a.len(),
{
    if a.len() > 0 && b.len() > 0 && c.len() > 0 && a[0] == b[0] && b[0] == c[0] {
        lemma_lex_transitive(a.drop_first(), b.drop_first(), c.drop_first());
    }
}

proof fn lemma_lex_skip(a: Seq<char>, b: Seq<char>, i: int)
    requires
        0 <= i <= a.len(),
        i <= b.len(),
        forall|j: int| 0 <= j < i ==> a[j] == b[j],
    ensures
        lex_less(a, b) == lex_less(a.skip(i), b.skip(i)),
    decreases i,
{
    if i == 0 {
        assert(a.skip(0) =~= a);
        assert(b.skip(0) =~= b);
    } else {
        assert(a.drop_first().skip(i - 1) =~= a.skip(i));
        assert(b.drop_first().skip(i - 1) =~= b.skip(i));
        assert forall|j: int| 0 <= j < i - 1 implies a.drop_first()[j] == b.drop_first()[j] by {
            assert(a[j + 1] == b[j + 1]);
        }
        lemma_lex_skip(a.drop_first(), b.drop_first(), i - 1);
    }
}

/// The order of [`lex_less`] is a strict total order in which the first differing
/// character decides, by code point, and a proper prefix comes first.
pub proof fn law_lex_order(a: Seq<char>, b: Seq<char>, c: Seq<char>)
    ensures
        !lex_less(a, a),
        a != b ==> (lex_less(a, b) || lex_less(b, a)),
        !(lex_less(a, b) && lex_less(b, a)),
        lex_less(a, b) && lex_less(b, c) ==> lex_less(a, c),
        a.len() < b.len() && b.take(a.len() as int) == a ==> lex_less(a, b),
        forall|k: int|
            0 <= k < a.len() && k < b.len() && a.take(k) == b.take(k) && a[k] != b[k] ==> (
            lex_less(a, b) <==> (a[k] as u32) < (b[k] as u32)),
{
    lemma_lex_irreflexive(a);
    lemma_lex_total(a, b);
    if lex_less(a, b) && lex_less(b, a) {
        lemma_lex_transitive(a, b, a);
        lemma_lex_irreflexive(a);
    }
    if lex_less(a, b) && lex_less(b, c) {
        lemma_lex_transitive(a, b, c);
    }
    if a.len() < b.len() && b.take(a.len() as int) == a {
        assert forall|j: int| 0 <= j < a.len() implies a[j] == b[j] by {
            assert(b.take(a.len() as int)[j] == b[j]);
        }
        lemma_lex_skip(a, b, a.len() as int);
    }
    assert forall|k: int|
        0 <= k < a.len() && k < b.len() && a.take(k) == b.take(k) && a[k] != b[k] implies (
        lex_less(a, b) <==> (a[k] as u32) < (b[k] as u32)) by {
        assert forall|j: int| 0 <= j < k implies a[j] == b[j] by {
            assert(a.take(k)[j] == a[j]);
            assert(b.take(k)[j] == b[j]);
        }
        lemma_lex_skip(a, b, k);
        assert(a.skip(k)[0] == a[k]);
        assert(b.skip(k)[0] == b[k]);
    }
}

/// Whether `a` comes strictly before `b` (see [`lex_less`]).
pub fn precedes(a: &[char], b: &[char]) -> (r: bool)
    ensures
        r == lex_less(a@, b@),
{
    let mut i: usize = 0;
    while i < a.len() && i < b.len()
        invariant
            i <= a@.len(),
            i <= b@.len(),
            forall|j: int| 0 <= j < i ==> a@[j] == b@[j],
        decreases a.len() - i,
    {
        if a[i] != b[i] {
            proof {
                lemma_lex_skip(a@, b@, i as int);
                assert(a@.skip(i as int)[0] == a@[i as int]);
                assert(b@.skip(i as int)[0] == b@[i as int]);
            }
            return (a[i] as u32) < (b[i] as u32);
        }
        i = i + 1;
    }
    proof {
        lemma_lex_skip(a@, b@, i as int);
    }
    a.len() < b.len()
}

/// Adds `x` to a strictly sorted list, where it belongs, unless it is there already.
///
/// The list is kept by hand rather than in a `BTreeSet<String>`: vstd's
/// specifications of `BTreeSet` hold only for keys that obey `obeys_cmp`, which
/// vstd does not establish for `String`, and it gives no specification of the
/// owning iterator that lists the set's elements in order.
pub fn insert_sorted(list: &mut Vec<Vec<char>>, x: Vec<char>)
    requires
        strictly_sorted(char_lists(old(list)@)),
    ensures
        strictly_sorted(char_lists(final(list)@)),
        forall|y: Seq<char>|
            char_lists(final(list)@).contains(y) <==> char_lists(old(list)@).contains(y) || y
                == x@,
{
    let ghost s = char_lists(list@);
    let n = list.len();
    let mut i: usize = 0;
    while i < n && precedes(&list[i], &x)
        invariant
            n == list@.len(),
            s == char_lists(list@),
            i <= n,
            forall|j: int| 0 <= j < i ==> lex_less(#[trigger] s[j], x@),
        decreases n - i,
    {
        i = i + 1;
    }
    if i < n && same_chars(&list[i], &x) {
        assert(s[i as int] == x@);
        return;
    }
    let ghost xv = x@;
    list.insert(i, x);
    proof {
        let t = char_lists(list@);
        assert(t =~= s.insert(i as int, xv));
        if i < n {
            lemma_lex_total(s[i as int], xv);
        }
        assert forall|a: int, b: int| 0 <= a < b < t.len() implies lex_less(
            #[trigger] t[a],
            #[trigger] t[b],
        ) by {
            if b < i {
                assert(t[a] == s[a] && t[b] == s[b]);
            } else if b == i {
                assert(t[a] == s[a]);
            } else if a == i {
                assert(t[b] == s[b - 1]);
                if b - 1 > i {
                    lemma_lex_transitive(xv, s[i as int], s[b - 1]);
                }
            } else if a < i {
                assert(t[a] == s[a] && t[b] == s[b - 1]);
            } else {
                assert(t[a] == s[a - 1] && t[b] == s[b - 1]);
            }
        }
        assert forall|y: Seq<char>| t.contains(y) <==> s.contains(y) || y == xv by {
            if t.contains(y) {
                let k = choose|k: int| 0 <= k < t.len() && t[k] == y;
                if k < i {
                    assert(s[k] == y);
                } else if k > i {
                    assert(s[k - 1] == y);
                }
            }
            if s.contains(y) {
                let k = choose|k: int| 0 <= k < s.len() && s[k] == y;
                if k < i {
                    assert(t[k] == y);
                } else {
                    assert(t[k + 1] == y);
                }
            }
            if y == xv {
                assert(t[i as int] == y);
            }
        }
    }
}

/// Whether `f` is offered once the first `n` installed family names are taken in:
/// it is a fallback family or the normalised form of one of those names.
pub open spec fn offered(installed: Seq<String>, n: int, f: Seq<char>) -> bool {
    is_fallback_family(f) || exists|i: int|
        0 <= i < n && f == font_family_spec(#[trigger] installed[i]@)
}

/// The families to offer, given the family names of the installed fonts: the
/// fallback families and every installed name normalised, each once, in order.
pub fn system_font_families(installed: &Vec<String>) -> (r: Vec<String>)
    ensures
        strictly_sorted(string_views(r@)),
        forall|f: Seq<char>|
            string_views(r@).contains(f) <==> is_fallback_family(f) || exists|i: int|
                0 <= i < installed@.len() && f == font_family_spec(#[trigger] installed@[i]@),
{
    let mut list: Vec<Vec<char>> = Vec::new();
    assert(char_lists(list@) =~= Seq::<Seq<char>>::empty());
    insert_sorted(&mut list, chars_of("Sans"));
    insert_sorted(&mut list, chars_of("Serif"));
    insert_sorted(&mut list, chars_of("Monospace"));
    assert forall|f: Seq<char>| #[trigger] char_lists(list@).contains(f) <==> offered(installed@, 0, f) by {}
    let mut k: usize = 0;
    while k < installed.len()
        invariant
            k <= installed@.len(),
            strictly_sorted(char_lists(list@)),
            forall|f: Seq<char>|
                #![trigger char_lists(list@).contains(f)]
                char_lists(list@).contains(f) <==> offered(installed@, k as int, f),
        decreases installed.len() - k,
    {
        let name = normalize_font_family(installed[k].as_str());
        let ghost before = char_lists(list@);
        let chars = chars_of(name.as_str());
        insert_sorted(&mut list, chars);
        proof {
            let after = char_lists(list@);
            let g = font_family_spec(installed@[k as int]@);
            assert(g == name@);
            assert forall|f: Seq<char>| #[trigger] after.contains(f) <==> offered(
                installed@,
                k + 1,
                f,
            ) by {
                if after.contains(f) {
                    if f == g {
                        assert(0 <= k < k + 1 && f == font_family_spec(installed@[k as int]@));
                    } else {
                        assert(before.contains(f));
                        assert(offered(installed@, k as int, f));
                        if !is_fallback_family(f) {
                            let i = choose|i: int|
                                0 <= i < k && f == font_family_spec(#[trigger] installed@[i]@);
                            assert(0 <= i < k + 1 && f == font_family_spec(installed@[i]@));
                        }
                    }
                }
                if offered(installed@, k + 1, f) {
                    if !is_fallback_family(f) {
                        let i = choose|i: int|
                            0 <= i < k + 1 && f == font_family_spec(#[trigger] installed@[i]@);
                        if i < k {
                            assert(0 <= i < k && f == font_family_spec(installed@[i]@));
                            assert(offered(installed@, k as int, f));
                            assert(before.contains(f));
                        } else {
                            assert(f == g);
                        }
                    } else {
                        assert(offered(installed@, k as int, f));
                        assert(before.contains(f));
                    }
                }
            }
        }
        k = k + 1;
    }
    let mut out: Vec<String> = Vec::new();
    for k in 0..list.len()
        invariant
            string_views(out@) =~= char_lists(list@).take(k as int),
    {
        let ghost before = out@;
        let item = string_of(&list[k]);
        out.push(item);
        proof {
            assert(string_views(out@) =~= string_views(before).push(item@));
            assert(char_lists(list@).take(k + 1) =~= char_lists(list@).take(k as int).push(
                list@[k as int]@,
            ));
        }
    }
    assert(char_lists(list@).take(list@.len() as int) =~= char_lists(list@));
    out
}

} // verus!
