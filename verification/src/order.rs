//! The order of texts: lexicographic by code point, which is the order of
//! `String`'s `Ord` (UTF-8 bytes compare as their code points do).
use crate::paths::chars_of;
use crate::text::texts;
use vstd::prelude::*;

verus! {

/// `a` and `b` agree on their first `k` characters.
pub open spec fn agree_up_to(a: Seq<char>, b: Seq<char>, k: int) -> bool {
    forall|i: int| 0 <= i < k ==> a[i] == b[i]
}

/// `a` and `b` first differ at index `k`, and there `a` is the smaller:
/// either `a` ends while `b` goes on, or `a` has the smaller code point.
pub open spec fn first_smaller_at(a: Seq<char>, b: Seq<char>, k: int) -> bool {
    &&& 0 <= k <= a.len()
    &&& k <= b.len()
    &&& agree_up_to(a, b, k)
    &&& ((k == a.len() && k < b.len()) || (k < a.len() && k < b.len() && (a[k] as u32) < (b[k] as u32)))
}

/// `a` sorts strictly before `b`.
pub open spec fn text_less(a: Seq<char>, b: Seq<char>) -> bool {
    exists|k: int| first_smaller_at(a, b, k)
}

/// Every text sorts strictly before every later one: sorted, no repeats.
pub open spec fn strictly_sorted(s: Seq<Seq<char>>) -> bool {
    forall|i: int, j: int| 0 <= i < j < s.len() ==> text_less(#[trigger] s[i], #[trigger] s[j])
}

/// No text sorts before itself.
pub proof fn lemma_text_less_irreflexive(a: Seq<char>)
    ensures
        !text_less(a, a),
{
}

/// The order of texts is transitive.
pub proof fn lemma_text_less_transitive(a: Seq<char>, b: Seq<char>, c: Seq<char>)
    requires
        text_less(a, b),
        text_less(b, c),
    ensures
        text_less(a, c),
{
    let k1 = choose|k: int| first_smaller_at(a, b, k);
    let k2 = choose|k: int| first_smaller_at(b, c, k);
    if k1 <= k2 {
        assert(first_smaller_at(a, c, k1));
    } else {
        assert(first_smaller_at(a, c, k2));
    }
}

/// A strictly sorted sequence holds no text twice.
pub proof fn lemma_strictly_sorted_no_repeats(s: Seq<Seq<char>>)
    requires
        strictly_sorted(s),
    ensures
        s.no_duplicates(),
{
    assert forall|i: int, j: int| 0 <= i < s.len() && 0 <= j < s.len() && i != j implies s[i]
        != s[j] by {
        if i < j {
            assert(text_less(s[i], s[j]));
        } else {
            assert(text_less(s[j], s[i]));
        }
    }
}

/// Where two texts stand to each other.
#[derive(Debug, Clone, Copy, PartialEq, Eq)]
pub enum TextOrder {
    Before,
    Same,
    After,
}

/// Compares two texts given as characters.
pub fn order_texts(a: &Vec<char>, b: &Vec<char>) -> (r: TextOrder)
    ensures
        r == TextOrder::Before <==> text_less(a@, b@),
        r == TextOrder::Same <==> a@ == b@,
        r == TextOrder::After <==> text_less(b@, a@),
{
    let mut i: usize = 0;
    while i < a.len() && i < b.len() && a[i] == b[i]
        invariant
            i <= a.len(),
            i <= b.len(),
            agree_up_to(a@, b@, i as int),
        decreases a.len() - i,
    {
        i = i + 1;
    }
    proof {
        lemma_text_less_irreflexive(a@);
        lemma_text_less_irreflexive(b@);
    }
    if i == a.len() && i == b.len() {
        assert(a@ =~= b@);
        TextOrder::Same
    } else if i == a.len() || (i < b.len() && (a[i] as u32) < (b[i] as u32)) {
        assert(first_smaller_at(a@, b@, i as int));
        assert(a@ != b@) by {
            if i == a.len() {
                assert(a@.len() != b@.len());
            } else {
                assert(a@[i as int] != b@[i as int]);
            }
        }
        proof {
            if text_less(b@, a@) {
                lemma_text_less_transitive(a@, b@, a@);
            }
        }
        TextOrder::Before
    } else {
        if i < b.len() {
            assert(a@[i as int] != b@[i as int]);
            assert((a@[i as int] as u32) != (b@[i as int] as u32)) by {
                vstd::utf8::char_u32_cast(a@[i as int], a@[i as int] as u32);
                vstd::utf8::char_u32_cast(b@[i as int], b@[i as int] as u32);
            }
        }
        assert(first_smaller_at(b@, a@, i as int));
        assert(a@ != b@) by {
            if i == b.len() {
                assert(a@.len() != b@.len());
            } else {
                assert(a@[i as int] != b@[i as int]);
            }
        }
        proof {
            if text_less(a@, b@) {
                lemma_text_less_transitive(a@, b@, a@);
            }
        }
        TextOrder::After
    }
}

/// Inserting `x` where everything before is smaller and everything from
/// there on is larger keeps a sequence strictly sorted.
proof fn lemma_insert_sorted(s: Seq<Seq<char>>, p: int, x: Seq<char>)
    requires
        strictly_sorted(s),
        0 <= p <= s.len(),
        forall|i: int| 0 <= i < p ==> text_less(#[trigger] s[i], x),
        p < s.len() ==> text_less(x, s[p]),
    ensures
        strictly_sorted(s.insert(p, x)),
{
    let t = s.insert(p, x);
    assert forall|i: int, j: int| 0 <= i < j < t.len() implies text_less(
        #[trigger] t[i],
        #[trigger] t[j],
    ) by {
        if j < p {
            assert(t[i] == s[i] && t[j] == s[j]);
        } else if j == p {
            assert(t[i] == s[i]);
        } else if i < p {
            assert(t[i] == s[i] && t[j] == s[j - 1]);
            assert(text_less(s[i], x));
            if j - 1 > p {
                assert(text_less(s[p], s[j - 1]));
                lemma_text_less_transitive(x, s[p], s[j - 1]);
            }
            lemma_text_less_transitive(s[i], x, s[j - 1]);
        } else if i == p {
            assert(t[j] == s[j - 1]);
            if j - 1 > p {
                assert(text_less(s[p], s[j - 1]));
                lemma_text_less_transitive(x, s[p], s[j - 1]);
            }
        } else {
            assert(t[i] == s[i - 1] && t[j] == s[j - 1]);
        }
    }
}

/// The keys in ascending order, each once: what sorting and then removing
/// repeats gives.
pub fn sorted_unique_keys(keys: Vec<String>) -> (r: Vec<String>)
    ensures
        strictly_sorted(texts(r@)),
        forall|t: Seq<char>| texts(r@).contains(t) <==> texts(keys@).contains(t),
{
    let mut out: Vec<String> = Vec::new();
    let mut out_chars: Vec<Vec<char>> = Vec::new();
    let mut n: usize = 0;
    while n < keys.len()
        invariant
            n <= keys.len(),
            out_chars.len() == out.len(),
            forall|i: int| 0 <= i < out.len() ==> (#[trigger] out_chars@[i])@ == out@[i]@,
            strictly_sorted(texts(out@)),
            forall|t: Seq<char>|
                texts(out@).contains(t) <==> texts(keys@.take(n as int)).contains(t),
        decreases keys.len() - n,
    {
        let key = &keys[n];
        let kc = chars_of(key.as_str());
        let ghost before = texts(out@);
        let mut j: usize = 0;
        let mut found = false;
        while j < out.len()
            invariant_except_break
                !found,
            invariant
                j <= out.len(),
                out_chars.len() == out.len(),
                forall|i: int| 0 <= i < out.len() ==> (#[trigger] out_chars@[i])@ == out@[i]@,
                kc@ == key@,
                before == texts(out@),
                forall|i: int| 0 <= i < j ==> text_less(#[trigger] before[i], key@),
            ensures
                j <= out.len(),
                forall|i: int| 0 <= i < j ==> text_less(#[trigger] before[i], key@),
                found ==> j < out.len() && before[j as int] == key@,
                !found && j < out.len() ==> text_less(key@, before[j as int]),
            decreases out.len() - j,
        {
            let o = order_texts(&out_chars[j], &kc);
            match o {
                TextOrder::Before => {
                    j = j + 1;
                },
                TextOrder::Same => {
                    found = true;
                    break;
                },
                TextOrder::After => {
                    break;
                },
            }
        }
        let ghost prev = texts(keys@.take(n as int));
        let ghost next = texts(keys@.take(n as int + 1));
        proof {
            assert(keys@.take(n as int + 1) == keys@.take(n as int).push(keys@[n as int]));
            assert(next == prev.push(key@));
            assert(forall|t: Seq<char>| before.contains(t) <==> prev.contains(t));
        }
        if !found {
            proof {
                lemma_insert_sorted(before, j as int, key@);
            }
            out.insert(j, key.clone());
            out_chars.insert(j, kc);
            proof {
                let now = texts(out@);
                assert(now =~= before.insert(j as int, key@));
                assert forall|t: Seq<char>| now.contains(t) <==> next.contains(t) by {
                    if now.contains(t) && t != key@ {
                        let i = choose|i: int| 0 <= i < now.len() && now[i] == t;
                        if i < j {
                            assert(before[i] == t);
                        } else {
                            assert(before[i - 1] == t);
                        }
                        assert(prev.contains(t));
                        let k = choose|k: int| 0 <= k < prev.len() && prev[k] == t;
                        assert(next[k] == t);
                    }
                    if next.contains(t) && t != key@ {
                        let k = choose|k: int| 0 <= k < next.len() && next[k] == t;
                        assert(prev[k] == t);
                        assert(before.contains(t));
                        let i = choose|i: int| 0 <= i < before.len() && before[i] == t;
                        if i < j {
                            assert(now[i] == t);
                        } else {
                            assert(now[i + 1] == t);
                        }
                    }
                    if t == key@ {
                        assert(now[j as int] == t);
                        assert(next[n as int] == t);
                    }
                }
            }
        } else {
            proof {
                let now = texts(out@);
                assert forall|t: Seq<char>| now.contains(t) <==> next.contains(t) by {
                    if t == key@ {
                        assert(now[j as int] == t);
                        assert(next[n as int] == t);
                    }
                    if next.contains(t) && t != key@ {
                        let k = choose|k: int| 0 <= k < next.len() && next[k] == t;
                        assert(prev[k] == t);
                    }
                    if now.contains(t) && t != key@ {
                        assert(prev.contains(t));
                        let k = choose|k: int| 0 <= k < prev.len() && prev[k] == t;
                        assert(next[k] == t);
                    }
                }
            }
        }
        n = n + 1;
    }
    assert(keys@.take(keys.len() as int) =~= keys@);
    out
}

} // verus!
