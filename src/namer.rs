use vstd::prelude::*;
use vstd::string::*;
use crate::text::{dec, decimal, digit, digits};

verus! {

/// What `Path::file_stem` gives for a file name, read lossily as text.
pub uninterp spec fn stem_of(name: Seq<char>) -> Seq<char>;

/// What `Path::extension` gives for a file name, read lossily as text.
pub uninterp spec fn extension_of(name: Seq<char>) -> Seq<char>;

/// Relies on `std::path::Path::file_stem`: the stem of the file name, or empty.
#[verifier::external_body]
fn file_stem(name: &str) -> (r: String)
    ensures
        r@ == stem_of(name@),
{
    std::path::Path::new(name).file_stem().unwrap_or_default().to_string_lossy().into_owned()
}

/// Relies on `std::path::Path::extension`: the extension of the file name, or empty.
#[verifier::external_body]
fn file_extension(name: &str) -> (r: String)
    ensures
        r@ == extension_of(name@),
{
    std::path::Path::new(name).extension().unwrap_or_default().to_string_lossy().into_owned()
}

/// Whether a directory listing holds `name`.
pub open spec fn taken(listing: Seq<String>, name: Seq<char>) -> bool {
    exists|i: int| 0 <= i < listing.len() && (#[trigger] listing[i])@ == name
}

/// The `n`-th alternative name: `<stem>_<n>.<ext>`.
pub open spec fn candidate(stem: Seq<char>, ext: Seq<char>, n: nat) -> Seq<char> {
    stem + seq!['_'] + dec(n) + seq!['.'] + ext
}

/// The `n`-th alternative for the file name `init`.
pub open spec fn alternative(init: Seq<char>, n: nat) -> Seq<char> {
    candidate(stem_of(init), extension_of(init), n)
}

/// `k` is the first alternative for `init` that the listing does not hold.
pub open spec fn first_free(listing: Seq<String>, init: Seq<char>, k: nat) -> bool {
    &&& k >= 1
    &&& !taken(listing, alternative(init, k))
    &&& forall|j: nat| 1 <= j < k ==> taken(listing, #[trigger] alternative(init, j))
}

/// The name that the namer picks: `init` itself when it is free, else its
/// first free alternative.
pub open spec fn picked(listing: Seq<String>, init: Seq<char>, r: Seq<char>) -> bool {
    if !taken(listing, init) {
        r == init
    } else {
        exists|k: nat| first_free(listing, init, k) && r == alternative(init, k)
    }
}

proof fn lemma_dec_nonempty(n: nat)
    ensures
        dec(n).len() >= 1,
    decreases n,
{
    if n >= 10 {
        lemma_dec_nonempty(n / 10);
    }
}

proof fn lemma_digit_injective(a: nat, b: nat)
    requires
        a < 10,
        b < 10,
        digit(a) == digit(b),
    ensures
        a == b,
{
    assert(digits()[0] == '0' && digits()[1] == '1' && digits()[2] == '2' && digits()[3] == '3'
        && digits()[4] == '4' && digits()[5] == '5' && digits()[6] == '6' && digits()[7] == '7'
        && digits()[8] == '8' && digits()[9] == '9');
}

proof fn lemma_dec_injective(n: nat, m: nat)
    requires
        dec(n) == dec(m),
    ensures
        n == m,
    decreases n,
{
    if n < 10 && m < 10 {
        assert(dec(n) == seq![digit(n)]);
        assert(dec(m) == seq![digit(m)]);
        assert(dec(n)[0] == digit(n));
        assert(dec(m)[0] == digit(m));
        lemma_digit_injective(n, m);
    } else if n < 10 {
        lemma_dec_nonempty(m / 10);
        assert(dec(m).len() >= 2);
    } else if m < 10 {
        lemma_dec_nonempty(n / 10);
        assert(dec(n).len() >= 2);
    } else {
        assert(dec(n).drop_last() =~= dec(n / 10));
        assert(dec(m).drop_last() =~= dec(m / 10));
        lemma_dec_injective(n / 10, m / 10);
        assert(dec(n) == dec(n / 10).push(digit(n % 10)));
        assert(dec(m) == dec(m / 10).push(digit(m % 10)));
        assert(dec(n).last() == digit(n % 10));
        assert(dec(m).last() == digit(m % 10));
        lemma_digit_injective(n % 10, m % 10);
    }
}

proof fn lemma_candidate_injective(stem: Seq<char>, ext: Seq<char>, n: nat, m: nat)
    requires
        candidate(stem, ext, n) == candidate(stem, ext, m),
    ensures
        n == m,
{
    let a: int = stem.len() + 1int;
    let cn = candidate(stem, ext, n);
    let cm = candidate(stem, ext, m);
    assert(cn.len() == cm.len());
    assert(dec(n).len() == dec(m).len());
    assert(cn.subrange(a, a + dec(n).len() as int) =~= dec(n));
    assert(cm.subrange(a, a + dec(m).len() as int) =~= dec(m));
    lemma_dec_injective(n, m);
}

/// Pigeonhole: a listing cannot hold the first `k` alternatives of one name
/// unless it has at least `k` entries.
proof fn lemma_listing_holds_alternatives(listing: Seq<String>, init: Seq<char>, k: nat)
    requires
        forall|j: nat| 1 <= j <= k ==> taken(listing, #[trigger] alternative(init, j)),
    ensures
        k <= listing.len(),
{
    broadcast use vstd::seq_lib::seq_to_set_is_finite;

    let alts = Seq::new(k, |j: int| alternative(init, (j + 1) as nat));
    let views = listing.map_values(|s: String| s@);
    assert forall|x: int, y: int| 0 <= x < alts.len() && 0 <= y < alts.len() && x != y implies alts[x]
        != alts[y] by {
        if alts[x] == alts[y] {
            lemma_candidate_injective(
                stem_of(init),
                extension_of(init),
                (x + 1) as nat,
                (y + 1) as nat,
            );
        }
    }
    assert(alts.no_duplicates());
    alts.unique_seq_to_set();
    assert forall|v: Seq<char>| alts.to_set().contains(v) implies views.to_set().contains(v) by {
        let x = choose|x: int| 0 <= x < alts.len() && alts[x] == v;
        assert(taken(listing, alternative(init, (x + 1) as nat)));
        let i = choose|i: int| 0 <= i < listing.len() && (#[trigger] listing[i])@ == alternative(
            init,
            (x + 1) as nat,
        );
        assert(views[i] == v);
    }
    vstd::set_lib::lemma_len_subset(alts.to_set(), views.to_set());
    views.lemma_cardinality_of_set();
}

/// Repeated collisions: when the same file name is placed again and again,
/// each picked alternative joining the listing before the next pick, the
/// picked names are pairwise distinct and their numbers strictly increase.
pub proof fn lemma_repeated_collisions(
    listing: Seq<String>,
    init: Seq<char>,
    names: Seq<String>,
    ks: Seq<nat>,
)
    requires
        names.len() == ks.len(),
        forall|i: int|
            0 <= i < names.len() ==> first_free(listing + names.take(i), init, #[trigger] ks[i]),
        forall|i: int| 0 <= i < names.len() ==> (#[trigger] names[i])@ == alternative(init, ks[i]),
    ensures
        forall|i: int, j: int| 0 <= i < j < names.len() ==> ks[i] < ks[j] && names[i]@ != names[j]@,
{
    assert forall|i: int, j: int| 0 <= i < j < names.len() implies ks[i] < ks[j] && names[i]@
        != names[j]@ by {
        let li = listing + names.take(i);
        let lj = listing + names.take(j);
        assert(first_free(li, init, ks[i]));
        assert(first_free(lj, init, ks[j]));
        assert(lj[listing.len() + i] == names[i]);
        assert(taken(lj, alternative(init, ks[i])));
        assert forall|m: nat| 1 <= m <= ks[i] implies taken(lj, #[trigger] alternative(init, m)) by {
            if m < ks[i] {
                assert(taken(li, alternative(init, m)));
                let p = choose|p: int| 0 <= p < li.len() && (#[trigger] li[p])@ == alternative(init, m);
                assert(lj[p] == li[p]);
            }
        }
        if ks[j] <= ks[i] {
            assert(taken(lj, alternative(init, ks[j])));
        }
    }
}

/// Whether the listing holds `name`.
fn listed(listing: &Vec<String>, name: &String) -> (r: bool)
    ensures
        r == taken(listing@, name@),
{
    let mut i: usize = 0;
    while i < listing.len()
        invariant
            i <= listing@.len(),
            forall|k: int| 0 <= k < i ==> (#[trigger] listing@[k])@ != name@,
        decreases listing@.len() - i,
    {
        if listing[i] == *name {
            return true;
        }
        i = i + 1;
    }
    false
}

/// Builds `<stem>_<n>.<ext>`.
fn make_candidate(stem: &String, ext: &String, n: usize) -> (r: String)
    ensures
        r@ == candidate(stem@, ext@, n as nat),
{
    let mut s = stem.clone();
    proof {
        reveal_strlit("_");
        reveal_strlit(".");
    }
    s.append("_");
    let d = decimal(n);
    s.append(d.as_str());
    s.append(".");
    s.append(ext.as_str());
    s
}

/// A name for a new file that the directory listing does not hold yet: `init`
/// when it is free, else `<stem>_<n>.<ext>` for the least `n >= 1` that is free.
pub fn generate_name_on_disk(init: &str, listing: &Vec<String>) -> (r: String)
    requires
        listing@.len() < usize::MAX,
    ensures
        !taken(listing@, r@),
        picked(listing@, init@, r@),
{
    let first = String::from_str(init);
    if !listed(listing, &first) {
        return first;
    }
    let stem = file_stem(init);
    let ext = file_extension(init);
    let mut idx: usize = 1;
    let mut name = make_candidate(&stem, &ext, idx);
    while listed(listing, &name)
        invariant
            1 <= idx <= listing@.len() + 1,
            listing@.len() < usize::MAX,
            stem@ == stem_of(init@),
            ext@ == extension_of(init@),
            name@ == alternative(init@, idx as nat),
            forall|j: nat| 1 <= j < idx ==> taken(listing@, #[trigger] alternative(init@, j)),
        decreases listing@.len() + 1 - idx,
    {
        proof {
            assert forall|j: nat| 1 <= j <= idx implies taken(
                listing@,
                #[trigger] alternative(init@, j),
            ) by {}
            lemma_listing_holds_alternatives(listing@, init@, idx as nat);
        }
        idx = idx + 1;
        name = make_candidate(&stem, &ext, idx);
    }
    assert(first_free(listing@, init@, idx as nat));
    name
}

} // verus!
