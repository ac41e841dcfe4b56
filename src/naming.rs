//! Fresh names for a file whose name is already taken in a folder: `report.pdf` becomes
//! `report_1.pdf`, then `report_2.pdf`, and so on.
use vstd::prelude::*;
use vstd::relations::injective_on;
use vstd::set_lib::{lemma_int_range, lemma_len_subset, lemma_map_size, set_int_range};
use vstd::seq_lib::seq_to_set_is_finite;
use crate::text::{chars_of, same_text, string_of};

verus! {

/// The character of a decimal digit.
pub open spec fn digit_char(d: nat) -> char {
    if d == 0 {
        '0'
    } else if d == 1 {
        '1'
    } else if d == 2 {
        '2'
    } else if d == 3 {
        '3'
    } else if d == 4 {
        '4'
    } else if d == 5 {
        '5'
    } else if d == 6 {
        '6'
    } else if d == 7 {
        '7'
    } else if d == 8 {
        '8'
    } else {
        '9'
    }
}

/// The decimal notation of `n`, without leading zeros.
pub open spec fn decimal(n: nat) -> Seq<char>
    decreases n,
{
    if n < 10 {
        seq![digit_char(n)]
    } else {
        decimal(n / 10).push(digit_char(n % 10))
    }
}

/// The last position `p` in `1 .. i` where `name` has a dot, or the length of `name`.
pub open spec fn dot_before(name: Seq<char>, i: int) -> int
    decreases i,
{
    if i <= 1 {
        name.len() as int
    } else if name[i - 1] == '.' {
        i - 1
    } else {
        dot_before(name, i - 1)
    }
}

/// Where the stem of a file name ends: at the dot that starts its extension, or at its end.
/// A leading dot starts no extension.
pub open spec fn stem_end(name: Seq<char>) -> int {
    dot_before(name, name.len() as int)
}

/// The `k`-th alternative to `name`: `_k` inserted between the stem and the extension.
pub open spec fn candidate(name: Seq<char>, k: nat) -> Seq<char> {
    name.subrange(0, stem_end(name)) + seq!['_'] + decimal(k) + name.subrange(
        stem_end(name),
        name.len() as int,
    )
}

/// `k` is the first suffix number whose alternative is not taken.
pub open spec fn is_first_free(name: Seq<char>, taken: Seq<Seq<char>>, k: nat) -> bool {
    &&& 1 <= k
    &&& !taken.contains(candidate(name, k))
    &&& forall|j: nat| 1 <= j < k ==> taken.contains(#[trigger] candidate(name, j))
}

/// The name a file gets under the rename policy when `name` is taken: the first alternative
/// that is not.
pub open spec fn renamed(name: Seq<char>, taken: Seq<Seq<char>>) -> Seq<char> {
    candidate(name, choose|k: nat| is_first_free(name, taken, k))
}

/// The names held in a list of strings.
pub open spec fn names_of(v: Seq<String>) -> Seq<Seq<char>> {
    v.map_values(|s: String| s@)
}

proof fn lemma_decimal_nonempty(n: nat)
    ensures
        decimal(n).len() >= 1,
    decreases n,
{
    if n >= 10 {
        lemma_decimal_nonempty(n / 10);
    }
}

/// Different numbers have different decimal notations.
pub proof fn lemma_decimal_injective(a: nat, b: nat)
    requires
        decimal(a) == decimal(b),
    ensures
        a == b,
    decreases a,
{
    if a >= 10 {
        lemma_decimal_nonempty(a / 10);
    }
    if b >= 10 {
        lemma_decimal_nonempty(b / 10);
    }
    if a >= 10 && b >= 10 {
        let da = decimal(a);
        assert(da.drop_last() =~= decimal(a / 10));
        assert(decimal(b).drop_last() =~= decimal(b / 10));
        assert(da.last() == digit_char(a % 10));
        assert(decimal(b).last() == digit_char(b % 10));
        assert(a % 10 == b % 10);
        lemma_decimal_injective(a / 10, b / 10);
        assert(a == 10 * (a / 10) + a % 10);
        assert(b == 10 * (b / 10) + b % 10);
    } else if a >= 10 {
        assert(decimal(a).len() >= 2);
    } else if b >= 10 {
        assert(decimal(b).len() >= 2);
    } else {
        assert(decimal(a)[0] == digit_char(a));
        assert(decimal(b)[0] == digit_char(b));
    }
}

/// Different suffix numbers give different alternatives.
pub proof fn lemma_candidate_injective(name: Seq<char>, a: nat, b: nat)
    requires
        candidate(name, a) == candidate(name, b),
    ensures
        a == b,
{
    let p = stem_end(name);
    lemma_dot_before_range(name, name.len() as int);
    let pre = name.subrange(0, p) + seq!['_'];
    let post = name.subrange(p, name.len() as int);
    let ca = candidate(name, a);
    let cb = candidate(name, b);
    assert(ca =~= pre + decimal(a) + post);
    assert(cb =~= pre + decimal(b) + post);
    assert(ca.len() == cb.len());
    assert(decimal(a).len() == decimal(b).len());
    assert(decimal(a) =~= ca.subrange(pre.len() as int, (pre.len() + decimal(a).len()) as int));
    assert(decimal(b) =~= cb.subrange(pre.len() as int, (pre.len() + decimal(b).len()) as int));
    lemma_decimal_injective(a, b);
}

proof fn lemma_dot_before_range(name: Seq<char>, i: int)
    requires
        i <= name.len(),
    ensures
        0 <= dot_before(name, i) <= name.len(),
        dot_before(name, i) < name.len() ==> 1 <= dot_before(name, i) < i,
    decreases i,
{
    if i > 1 && name[i - 1] != '.' {
        lemma_dot_before_range(name, i - 1);
    }
}

/// Among the first `taken.len() + 1` alternatives at least one is not taken.
pub proof fn lemma_some_alternative_free(name: Seq<char>, taken: Seq<Seq<char>>)
    ensures
        exists|j: nat| 1 <= j <= taken.len() + 1 && !taken.contains(#[trigger] candidate(name, j)),
{
    if forall|j: nat| 1 <= j <= taken.len() + 1 ==> taken.contains(#[trigger] candidate(name, j)) {
        let n = taken.len() as int;
        let f = |j: int| candidate(name, j as nat);
        let dom = set_int_range(1, n + 2);
        lemma_int_range(1, n + 2);
        assert(injective_on(f, dom)) by {
            assert forall|x1: int, x2: int|
                dom.contains(x1) && dom.contains(x2) && #[trigger] f(x1) == #[trigger] f(x2)
                implies x1 == x2 by {
                lemma_candidate_injective(name, x1 as nat, x2 as nat);
            }
        }
        let img = dom.map(f);
        lemma_map_size(dom, img, f);
        seq_to_set_is_finite(taken);
        assert(img.subset_of(taken.to_set())) by {
            assert forall|c: Seq<char>| img.contains(c) implies taken.to_set().contains(c) by {
                let j = choose|j: int| dom.contains(j) && f(j) == c;
                assert(taken.contains(candidate(name, j as nat)));
            }
        }
        lemma_len_subset(img, taken.to_set());
        taken.lemma_cardinality_of_set();
    }
}

/// There is a first free alternative, and `renamed` is it.
pub proof fn lemma_first_free(name: Seq<char>, taken: Seq<Seq<char>>, k: nat)
    requires
        is_first_free(name, taken, k),
    ensures
        renamed(name, taken) == candidate(name, k),
{
    let c = choose|c: nat| is_first_free(name, taken, c);
    if c < k {
        assert(taken.contains(candidate(name, c)));
    } else if k < c {
        assert(taken.contains(candidate(name, k)));
    }
}

proof fn lemma_first_free_from(name: Seq<char>, taken: Seq<Seq<char>>, j: nat)
    requires
        1 <= j <= taken.len() + 1,
        forall|i: nat| 1 <= i < j ==> taken.contains(#[trigger] candidate(name, i)),
    ensures
        exists|k: nat| is_first_free(name, taken, k),
    decreases taken.len() + 1 - j,
{
    if !taken.contains(candidate(name, j)) {
        assert(is_first_free(name, taken, j));
    } else if j == taken.len() + 1 {
        lemma_some_alternative_free(name, taken);
        let w = choose|w: nat| 1 <= w <= taken.len() + 1 && !taken.contains(#[trigger] candidate(name, w));
        assert(w < j);
    } else {
        lemma_first_free_from(name, taken, j + 1);
    }
}

/// Whatever the taken names, some alternative is the first free one, and `renamed` gives it.
pub proof fn lemma_renamed_is_first_free(name: Seq<char>, taken: Seq<Seq<char>>)
    ensures
        exists|k: nat| is_first_free(name, taken, k) && renamed(name, taken) == candidate(name, k),
{
    lemma_first_free_from(name, taken, 1);
    let k = choose|k: nat| is_first_free(name, taken, k);
    lemma_first_free(name, taken, k);
}

/// The decimal digit `d` as a character.
fn digit(d: u64) -> (r: char)
    requires
        d < 10,
    ensures
        r == digit_char(d as nat),
{
    if d == 0 {
        '0'
    } else if d == 1 {
        '1'
    } else if d == 2 {
        '2'
    } else if d == 3 {
        '3'
    } else if d == 4 {
        '4'
    } else if d == 5 {
        '5'
    } else if d == 6 {
        '6'
    } else if d == 7 {
        '7'
    } else if d == 8 {
        '8'
    } else {
        '9'
    }
}

/// Appends the decimal notation of `n`.
pub(crate) fn push_decimal(out: &mut Vec<char>, n: u64)
    ensures
        final(out)@ == old(out)@ + decimal(n as nat),
    decreases n,
{
    if n >= 10 {
        push_decimal(out, n / 10);
    }
    out.push(digit(n % 10));
    assert(n >= 10 ==> decimal(n as nat) =~= decimal((n / 10) as nat).push(digit_char((n % 10) as nat)));
}

/// Where the stem of `name` ends.
fn find_stem_end(name: &Vec<char>) -> (r: usize)
    ensures
        r == stem_end(name@),
{
    let mut i = name.len();
    while i > 1
        invariant
            i <= name@.len(),
            dot_before(name@, i as int) == stem_end(name@),
        decreases i,
    {
        if name[i - 1] == '.' {
            return i - 1;
        }
        i = i - 1;
    }
    name.len()
}

/// The `k`-th alternative to `name`, built from its characters and the stem's end.
fn build_candidate(name: &Vec<char>, p: usize, k: usize) -> (r: String)
    requires
        p == stem_end(name@),
    ensures
        r@ == candidate(name@, k as nat),
{
    proof {
        lemma_dot_before_range(name@, name@.len() as int);
    }
    let mut out: Vec<char> = Vec::new();
    let mut i: usize = 0;
    while i < p
        invariant
            p <= name@.len(),
            i <= p,
            out@ == name@.subrange(0, i as int),
        decreases p - i,
    {
        out.push(name[i]);
        i = i + 1;
        assert(out@ =~= name@.subrange(0, i as int));
    }
    out.push('_');
    push_decimal(&mut out, k as u64);
    let ghost mid = out@;
    let mut j: usize = p;
    while j < name.len()
        invariant
            p <= j <= name@.len(),
            out@ == mid + name@.subrange(p as int, j as int),
        decreases name.len() - j,
    {
        out.push(name[j]);
        j = j + 1;
        assert(out@ =~= mid + name@.subrange(p as int, j as int));
    }
    assert(out@ =~= candidate(name@, k as nat));
    string_of(&out)
}

/// Whether `name` is among `taken`.
pub fn is_taken(taken: &Vec<String>, name: &str) -> (r: bool)
    ensures
        r == names_of(taken@).contains(name@),
{
    let mut i: usize = 0;
    while i < taken.len()
        invariant
            i <= taken@.len(),
            forall|j: int| 0 <= j < i ==> taken@[j]@ != name@,
        decreases taken.len() - i,
    {
        if same_text(taken[i].as_str(), name) {
            assert(names_of(taken@)[i as int] == name@);
            return true;
        }
        i = i + 1;
    }
    assert forall|j: int| 0 <= j < names_of(taken@).len() implies names_of(taken@)[j] != name@ by {
        assert(names_of(taken@)[j] == taken@[j]@);
    }
    false
}

/// The name a file called `name` gets when `name` is taken and the policy is to rename: the
/// first of `stem_1.ext`, `stem_2.ext`, ... that is not among `taken`.
pub fn unique_name(name: &str, taken: &Vec<String>) -> (r: String)
    requires
        taken@.len() < usize::MAX,
    ensures
        r@ == renamed(name@, names_of(taken@)),
        exists|k: nat| is_first_free(name@, names_of(taken@), k) && r@ == candidate(name@, k),
{
    let ghost names = names_of(taken@);
    let chars = chars_of(name);
    let p = find_stem_end(&chars);
    let n = taken.len();
    let mut k: usize = 1;
    while k <= n
        invariant
            n == taken@.len(),
            n < usize::MAX,
            names == names_of(taken@),
            chars@ == name@,
            p == stem_end(name@),
            1 <= k <= n + 1,
            forall|j: nat| 1 <= j < k ==> names.contains(#[trigger] candidate(name@, j)),
        decreases n + 1 - k,
    {
        let c = build_candidate(&chars, p, k);
        if !is_taken(taken, c.as_str()) {
            proof {
                assert(is_first_free(name@, names, k as nat));
                lemma_first_free(name@, names, k as nat);
            }
            return c;
        }
        k = k + 1;
    }
    let c = build_candidate(&chars, p, k);
    proof {
        lemma_some_alternative_free(name@, names);
        let j = choose|j: nat| 1 <= j <= names.len() + 1 && !names.contains(
            #[trigger] candidate(name@, j),
        );
        assert(j == k);
    }
    proof {
        assert(is_first_free(name@, names, k as nat));
        lemma_first_free(name@, names, k as nat);
    }
    c
}

} // verus!
