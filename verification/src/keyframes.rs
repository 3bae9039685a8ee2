use vstd::prelude::*;
use vstd::string::*;

use crate::media::texts;

verus! {

/// Order of texts character by character, a proper prefix first: the order
/// in which `String`s compare (UTF-8 keeps the order of code points).
pub open spec fn text_lt(a: Seq<char>, b: Seq<char>) -> bool
    decreases a.len(),
{
    if b.len() == 0 {
        false
    } else if a.len() == 0 {
        true
    } else if a[0] != b[0] {
        a[0] < b[0]
    } else {
        text_lt(a.drop_first(), b.drop_first())
    }
}

/// Every text is ordered no later than the ones after it.
pub open spec fn sorted_texts(s: Seq<Seq<char>>) -> bool {
    forall|i: int, j: int| 0 <= i < j < s.len() ==> !text_lt(#[trigger] s[j], #[trigger] s[i])
}

/// A keyframe image: a file name whose extension (the text after its last
/// dot, where that dot is not the name's first character) is exactly `jpg`.
pub open spec fn is_frame_file(name: Seq<char>) -> bool {
    name.len() > 4 && name.subrange(name.len() - 4, name.len() as int) == ".jpg"@
}

/// The keyframe images among a list of file names, in the list's order.
pub open spec fn frame_names(names: Seq<Seq<char>>) -> Seq<Seq<char>>
    decreases names.len(),
{
    if names.len() == 0 {
        Seq::empty()
    } else if is_frame_file(names.last()) {
        frame_names(names.drop_last()).push(names.last())
    } else {
        frame_names(names.drop_last())
    }
}

proof fn lemma_text_lt_transitive(a: Seq<char>, b: Seq<char>, c: Seq<char>)
    requires
        text_lt(a, b),
        text_lt(b, c),
    ensures
        text_lt(a, c),
    decreases a.len(),
{
    if a.len() > 0 && b.len() > 0 && c.len() > 0 && a[0] == b[0] && b[0] == c[0] {
        lemma_text_lt_transitive(a.drop_first(), b.drop_first(), c.drop_first());
    }
}

proof fn lemma_text_lt_irreflexive(a: Seq<char>)
    ensures
        !text_lt(a, a),
    decreases a.len(),
{
    if a.len() > 0 {
        lemma_text_lt_irreflexive(a.drop_first());
    }
}

fn text_less(a: &String, b: &String) -> (r: bool)
    ensures
        r == text_lt(a@, b@),
{
    let x = a.as_str();
    let y = b.as_str();
    let n = x.unicode_len();
    let m = y.unicode_len();
    let mut i: usize = 0;
    assert(a@.skip(0) =~= a@ && b@.skip(0) =~= b@);
    loop
        invariant
            0 <= i <= n,
            i <= m,
            n == a@.len(),
            m == b@.len(),
            x@ == a@,
            y@ == b@,
            text_lt(a@, b@) == text_lt(a@.skip(i as int), b@.skip(i as int)),
        decreases n - i,
    {
        if i == m {
            return false;
        }
        if i == n {
            return true;
        }
        let c = x.get_char(i);
        let d = y.get_char(i);
        assert(a@.skip(i as int)[0] == c && b@.skip(i as int)[0] == d);
        if c != d {
            return c < d;
        }
        assert(a@.skip(i as int).drop_first() =~= a@.skip(i + 1));
        assert(b@.skip(i as int).drop_first() =~= b@.skip(i + 1));
        i += 1;
    }
}

fn is_frame_name(name: &String) -> (r: bool)
    ensures
        r == is_frame_file(name@),
{
    let s = name.as_str();
    let n = s.unicode_len();
    proof {
        reveal_strlit(".jpg");
    }
    if n <= 4 {
        return false;
    }
    let r = s.get_char(n - 4) == '.' && s.get_char(n - 3) == 'j' && s.get_char(n - 2) == 'p' && s.get_char(n - 1) == 'g';
    let ghost tail = name@.subrange(n - 4, n as int);
    assert(tail[0] == name@[n - 4] && tail[1] == name@[n - 3] && tail[2] == name@[n - 2] && tail[3] == name@[n - 1]);
    if r {
        assert(tail =~= ".jpg"@);
    }
    r
}

/// The keyframe images among the files of an analysis folder, by name: the
/// names that `is_frame_file` accepts, sorted as `String`s sort.
pub fn keyframe_names(names: &Vec<String>) -> (r: Vec<String>)
    ensures
        texts(r@).to_multiset() == frame_names(texts(names@)).to_multiset(),
        sorted_texts(texts(r@)),
{
    let ghost all = texts(names@);
    let mut out: Vec<String> = Vec::new();
    let mut i: usize = 0;
    assert(all.take(0) =~= Seq::<Seq<char>>::empty());
    assert(texts(out@) =~= Seq::<Seq<char>>::empty());
    while i < names.len()
        invariant
            0 <= i <= names@.len(),
            all == texts(names@),
            texts(out@).to_multiset() == frame_names(all.take(i as int)).to_multiset(),
            sorted_texts(texts(out@)),
        decreases names.len() - i,
    {
        let ghost before = texts(out@);
        assert(all.take(i + 1).drop_last() =~= all.take(i as int));
        assert(all.take(i + 1).last() == names@[i as int]@);
        if is_frame_name(&names[i]) {
            let ghost x = names@[i as int]@;
            let mut k: usize = 0;
            loop
                invariant
                    0 <= k <= out@.len(),
                    i < names@.len(),
                    x == names@[i as int]@,
                    before == texts(out@),
                    forall|j: int| 0 <= j < k ==> !text_lt(x, #[trigger] before[j]),
                ensures
                    0 <= k <= out@.len(),
                    forall|j: int| 0 <= j < k ==> !text_lt(x, #[trigger] before[j]),
                    k < out@.len() ==> text_lt(x, before[k as int]),
                decreases out.len() - k,
            {
                if k == out.len() {
                    break;
                }
                if text_less(&names[i], &out[k]) {
                    break;
                }
                k += 1;
            }
            out.insert(k, names[i].clone());
            assert(texts(out@) =~= before.insert(k as int, x));
            proof {
                vstd::seq_lib::to_multiset_insert(before, k as int, x);
                vstd::seq_lib::to_multiset_build(frame_names(all.take(i as int)), x);
                let t = texts(out@);
                assert(sorted_texts(before));
                assert forall|a: int, b: int| 0 <= a < b < t.len() implies !text_lt(#[trigger] t[b], #[trigger] t[a]) by {
                    if a == k {
                        assert(t[a] == x);
                        assert(t[b] == before[b - 1]);
                        assert(text_lt(x, before[k as int]));
                        if b - 1 == k {
                            lemma_text_lt_irreflexive(before[k as int]);
                        }
                        if text_lt(t[b], x) {
                            lemma_text_lt_transitive(t[b], x, before[k as int]);
                        }
                    } else if b == k {
                        assert(t[b] == x);
                        assert(t[a] == before[a]);
                        assert(!text_lt(x, before[a]));
                    } else if a < k && b > k {
                        assert(t[a] == before[a] && t[b] == before[b - 1]);
                        assert(!text_lt(before[b - 1], before[a]));
                    } else if b < k {
                        assert(t[a] == before[a] && t[b] == before[b]);
                    } else {
                        assert(t[a] == before[a - 1] && t[b] == before[b - 1]);
                        assert(!text_lt(before[b - 1], before[a - 1]));
                    }
                }
            }
        }
        i += 1;
    }
    assert(all.take(i as int) =~= all);
    out
}

} // verus!
