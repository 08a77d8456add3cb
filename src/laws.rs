use vstd::prelude::*;

use crate::code::{canonical_code, is_digit, trimmed, Error, ZIPCODE_LENGTH};
use crate::query::{
    filter_spec, is_real_spec, lemma_filter_empty, matching_spec, passes, result_views, scope,
    with_code,
};
use crate::record::{views, Zipcode, ZipcodeView};
use crate::store::Database;

verus! {

/// A code whose first five trimmed characters are digits is accepted, and
/// its canonical form is exactly those five characters.
pub proof fn lemma_digits_accepted(s: Seq<char>)
    requires
        trimmed(s).len() >= ZIPCODE_LENGTH,
        forall|i: int| 0 <= i < ZIPCODE_LENGTH ==> is_digit(#[trigger] trimmed(s)[i]),
    ensures
        canonical_code(s) == Ok::<Seq<char>, Error>(trimmed(s).subrange(0, ZIPCODE_LENGTH as int)),
{
}

/// A string of fewer than five characters after trimming is rejected as
/// malformed.
pub proof fn lemma_short_rejected(s: Seq<char>)
    requires
        trimmed(s).len() < ZIPCODE_LENGTH,
    ensures
        canonical_code(s) == Err::<Seq<char>, Error>(Error::InvalidFormat),
{
}

/// A string of at least five characters after trimming, one of the first
/// five not a digit, is rejected for its characters.
pub proof fn lemma_non_digit_rejected(s: Seq<char>, i: int)
    requires
        trimmed(s).len() >= ZIPCODE_LENGTH,
        0 <= i < ZIPCODE_LENGTH,
        !is_digit(trimmed(s)[i]),
    ensures
        canonical_code(s) == Err::<Seq<char>, Error>(Error::InvalidCharacters),
{
}

/// A lookup in the dataset returns only records with the canonical code,
/// and nothing, without an error, when no record has that code.
pub proof fn lemma_matching_only_code(db: Database, s: Seq<char>)
    requires
        canonical_code(s) is Ok,
    ensures
        matching_spec(db, s, None) is Ok,
        forall|i: int|
            0 <= i < matching_spec(db, s, None)->Ok_0.len() ==> (
            #[trigger] matching_spec(db, s, None)->Ok_0[i]).zip_code == canonical_code(s)->Ok_0,
        (forall|j: int|
            0 <= j < db.records().len() ==> #[trigger] db.records()[j].zip_code@
                != canonical_code(s)->Ok_0) ==> matching_spec(db, s, None)->Ok_0.len() == 0,
{
    let c = canonical_code(s)->Ok_0;
    let src = views(db.records());
    let p = |x: ZipcodeView| x.zip_code == c;
    assert forall|i: int| 0 <= i < src.filter(p).len() implies (#[trigger] src.filter(p)[i]).zip_code
        == c by {
        src.lemma_filter_pred(p, i);
    }
    lemma_filter_empty(src, p);
    if forall|j: int| 0 <= j < db.records().len() ==> #[trigger] db.records()[j].zip_code@ != c {
        assert forall|i: int| 0 <= i < src.len() implies !p(#[trigger] src[i]) by {
            assert(db.records()[i].zip_code@ != c);
        }
    }
}

/// `is_real` answers whether the lookup of the same code in the dataset
/// finds anything, and fails exactly as that lookup does.
pub proof fn lemma_is_real_iff_found(db: Database, s: Seq<char>)
    ensures
        is_real_spec(db, s) == match matching_spec(db, s, None) {
            Ok(v) => Ok::<bool, Error>(v.len() > 0),
            Err(e) => Err(e),
        },
{
    if let Ok(c) = canonical_code(s) {
        let src = views(db.records());
        let p = |x: ZipcodeView| x.zip_code == c;
        lemma_filter_empty(src, p);
        if src.filter(p).len() == 0 {
            assert forall|i: int| 0 <= i < db.records().len() implies #[trigger] db.records()[i].zip_code@
                != c by {
                assert(!p(src[i]));
            }
        } else {
            let i = choose|i: int| 0 <= i < src.len() && p(#[trigger] src[i]);
            assert(db.records()[i].zip_code@ == c);
        }
    }
}

/// Searching the result of one lookup for another canonical code finds
/// nothing: an override collection is the whole scope of the search.
pub proof fn lemma_override_restricts(db: Database, c: Seq<char>, other: Seq<char>, found: Vec<Zipcode>)
    requires
        canonical_code(c) is Ok,
        canonical_code(other) is Ok,
        canonical_code(c)->Ok_0 != canonical_code(other)->Ok_0,
        result_views(Ok(found)) == matching_spec(db, other, None),
    ensures
        matching_spec(db, c, Some(found)) == Ok::<Seq<ZipcodeView>, Error>(Seq::empty()),
{
    let k1 = canonical_code(c)->Ok_0;
    let k2 = canonical_code(other)->Ok_0;
    let s = views(found@);
    let p1 = |x: ZipcodeView| x.zip_code == k1;
    let p2 = |x: ZipcodeView| x.zip_code == k2;
    assert(s == views(db.records()).filter(p2));
    assert forall|i: int| 0 <= i < s.len() implies !p1(#[trigger] s[i]) by {
        views(db.records()).lemma_filter_pred(p2, i);
    }
    lemma_filter_empty(s, p1);
    assert(with_code(s, k1) =~= Seq::<ZipcodeView>::empty());
}

proof fn lemma_filter_all<A>(s: Seq<A>, p: spec_fn(A) -> bool)
    requires
        forall|i: int| 0 <= i < s.len() ==> p(#[trigger] s[i]),
    ensures
        s.filter(p) == s,
    decreases s.len(),
{
    reveal(Seq::filter);
    if s.len() > 0 {
        let d = s.drop_last();
        assert forall|i: int| 0 <= i < d.len() implies p(#[trigger] d[i]) by {
            assert(d[i] == s[i]);
        }
        lemma_filter_all(d, p);
        assert(p(s[s.len() - 1]));
        assert(d.push(s.last()) =~= s);
    }
}

proof fn lemma_filter_both<A>(s: Seq<A>, p: spec_fn(A) -> bool, q: spec_fn(A) -> bool)
    ensures
        s.filter(|x: A| p(x) && q(x)) == s.filter(p).filter(q),
    decreases s.len(),
{
    reveal(Seq::filter);
    if s.len() > 0 {
        let d = s.drop_last();
        lemma_filter_both(d, p, q);
        d.filter(p).lemma_filter_push(s.last(), q);
    }
}

/// With no filters, `filter_by` over the dataset keeps every record, as
/// `list_all` does.
pub proof fn lemma_no_filters_keep_all<F: Fn(&Zipcode) -> bool>(db: Database, filters: Seq<F>)
    requires
        filters.len() == 0,
    ensures
        filter_spec(db, filters, None) == views(db.records()),
{
    lemma_filter_all(db.records(), |z: Zipcode| passes(filters, z));
}

/// Two filters keep what each keeps alone: the records that the first keeps,
/// then of those the ones that the second keeps, in the order of the scope;
/// and likewise with the two taken the other way round.
pub proof fn lemma_filters_intersect<F: Fn(&Zipcode) -> bool>(
    db: Database,
    p1: F,
    p2: F,
    zipcodes: Option<Vec<Zipcode>>,
)
    ensures
        filter_spec(db, seq![p1, p2], zipcodes) == views(
            scope(db, zipcodes).filter(|z: Zipcode| passes(seq![p1], z)).filter(
                |z: Zipcode| passes(seq![p2], z),
            ),
        ),
        filter_spec(db, seq![p1, p2], zipcodes) == views(
            scope(db, zipcodes).filter(|z: Zipcode| passes(seq![p2], z)).filter(
                |z: Zipcode| passes(seq![p1], z),
            ),
        ),
{
    let s = scope(db, zipcodes);
    let both = |z: Zipcode| passes(seq![p1, p2], z);
    let a = |z: Zipcode| passes(seq![p1], z);
    let b = |z: Zipcode| passes(seq![p2], z);
    assert forall|z: Zipcode| #[trigger] both(z) == (a(z) && b(z)) by {
        let pp = seq![p1, p2];
        assert(pp[0] == p1 && pp[1] == p2);
        assert(seq![p1][0] == p1);
        assert(seq![p2][0] == p2);
        if a(z) && b(z) {
            assert forall|i: int| 0 <= i < pp.len() implies #[trigger] pp[i].ensures((&z,), true) by {
                if i == 0 {
                    assert(seq![p1][0].ensures((&z,), true));
                } else {
                    assert(seq![p2][0].ensures((&z,), true));
                }
            }
        }
        if both(z) {
            assert(pp[0].ensures((&z,), true));
            assert(pp[1].ensures((&z,), true));
        }
    }
    assert(both =~= (|z: Zipcode| a(z) && b(z)));
    assert((|z: Zipcode| a(z) && b(z)) =~= (|z: Zipcode| b(z) && a(z)));
    lemma_filter_both(s, a, b);
    lemma_filter_both(s, b, a);
}

/// The queries are functions of their arguments: two calls with the same
/// arguments on the same dataset give results with the same contents.
pub proof fn lemma_queries_deterministic(
    db: Database,
    s: Seq<char>,
    zipcodes: Option<Vec<Zipcode>>,
    m1: Result<Vec<Zipcode>, Error>,
    m2: Result<Vec<Zipcode>, Error>,
    b1: Result<bool, Error>,
    b2: Result<bool, Error>,
    l1: Vec<Zipcode>,
    l2: Vec<Zipcode>,
)
    requires
        result_views(m1) == matching_spec(db, s, zipcodes),
        result_views(m2) == matching_spec(db, s, zipcodes),
        b1 == is_real_spec(db, s),
        b2 == is_real_spec(db, s),
        views(l1@) == views(db.records()),
        views(l2@) == views(db.records()),
    ensures
        result_views(m1) == result_views(m2),
        b1 == b2,
        views(l1@) == views(l2@),
{
}

} // verus!
