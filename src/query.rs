use vstd::prelude::*;

use crate::code::{canonical_code, clean_zipcode, Error};
use crate::record::{views, Zipcode, ZipcodeView};
use crate::store::Database;

verus! {

/// The records searched: the override when one is given, else the dataset.
pub open spec fn scope(db: Database, zipcodes: Option<Vec<Zipcode>>) -> Seq<Zipcode> {
    match zipcodes {
        Some(v) => v@,
        None => db.records(),
    }
}

/// The records of `s` whose code is `c`, in order.
pub open spec fn with_code(s: Seq<ZipcodeView>, c: Seq<char>) -> Seq<ZipcodeView> {
    s.filter(|x: ZipcodeView| x.zip_code == c)
}

/// What `matching` returns.
pub open spec fn matching_spec(
    db: Database,
    zipcode: Seq<char>,
    zipcodes: Option<Vec<Zipcode>>,
) -> Result<Seq<ZipcodeView>, Error> {
    match canonical_code(zipcode) {
        Ok(c) => Ok(with_code(views(scope(db, zipcodes)), c)),
        Err(e) => Err(e),
    }
}

/// What `is_real` returns: whether some record of the dataset has the code.
pub open spec fn is_real_spec(db: Database, zipcode: Seq<char>) -> Result<bool, Error> {
    match canonical_code(zipcode) {
        Ok(c) => Ok(exists|i: int| 0 <= i < db.records().len() && #[trigger] db.records()[i].zip_code@ == c),
        Err(e) => Err(e),
    }
}

/// The contents of a query result.
pub open spec fn result_views(r: Result<Vec<Zipcode>, Error>) -> Result<Seq<ZipcodeView>, Error> {
    match r {
        Ok(v) => Ok(views(v@)),
        Err(e) => Err(e),
    }
}

proof fn lemma_take_push<A>(s: Seq<A>, i: int)
    requires
        0 <= i < s.len(),
    ensures
        s.take(i + 1) == s.take(i).push(s[i]),
{
    assert(s.take(i + 1) =~= s.take(i).push(s[i]));
}

proof fn lemma_views_push(s: Seq<Zipcode>, z: Zipcode)
    ensures
        views(s.push(z)) == views(s).push(z@),
{
    assert(views(s.push(z)) =~= views(s).push(z@));
}

/// The records of `src` whose code is `code`, copied, in order.
fn select_code(src: &Vec<Zipcode>, code: &String) -> (r: Vec<Zipcode>)
    ensures
        views(r@) == with_code(views(src@), code@),
{
    let mut r: Vec<Zipcode> = Vec::new();
    let mut i: usize = 0;
    while i < src.len()
        invariant
            i <= src.len(),
            views(r@) == with_code(views(src@.take(i as int)), code@),
        decreases src.len() - i,
    {
        proof {
            lemma_take_push(src@, i as int);
            lemma_views_push(src@.take(i as int), src@[i as int]);
            views(src@.take(i as int)).lemma_filter_push(
                src@[i as int]@,
                |x: ZipcodeView| x.zip_code == code@,
            );
        }
        if src[i].zip_code == *code {
            let z = src[i].copy();
            proof {
                lemma_views_push(r@, z);
            }
            r.push(z);
        }
        i = i + 1;
    }
    assert(src@.take(src.len() as int) =~= src@);
    r
}

/// Every record whose code equals the canonical form of `zipcode`, in the
/// order of the search scope: the override `zipcodes` when given, else the
/// dataset. An unmatched code gives an empty result; a malformed one gives
/// the validation error.
pub fn matching(db: &Database, zipcode: &str, zipcodes: Option<Vec<Zipcode>>) -> (r: Result<
    Vec<Zipcode>,
    Error,
>)
    ensures
        result_views(r) == matching_spec(*db, zipcode@, zipcodes),
{
    let code = match clean_zipcode(zipcode) {
        Ok(c) => c,
        Err(e) => return Err(e),
    };
    let found = match &zipcodes {
        Some(v) => select_code(v, &code),
        None => select_code(db.zipcodes(), &code),
    };
    Ok(found)
}

pub(crate) proof fn lemma_filter_empty<A>(s: Seq<A>, p: spec_fn(A) -> bool)
    ensures
        s.filter(p).len() == 0 <==> (forall|i: int| 0 <= i < s.len() ==> !p(#[trigger] s[i])),
    decreases s.len(),
{
    reveal(Seq::filter);
    if s.len() > 0 {
        let d = s.drop_last();
        lemma_filter_empty(d, p);
        d.lemma_filter_len(p);
        if s.filter(p).len() == 0 {
            assert forall|i: int| 0 <= i < s.len() implies !p(#[trigger] s[i]) by {
                if i < s.len() - 1 {
                    assert(s[i] == d[i]);
                }
            }
        } else if forall|i: int| 0 <= i < s.len() ==> !p(#[trigger] s[i]) {
            assert(!p(s[s.len() - 1]));
            assert forall|i: int| 0 <= i < d.len() implies !p(#[trigger] d[i]) by {
                assert(s[i] == d[i]);
            }
        }
    }
}

/// A five-digit code is its own canonical form.
proof fn lemma_canonical_fixed(c: Seq<char>)
    requires
        c.len() == 5,
        forall|i: int| 0 <= i < 5 ==> crate::code::is_digit(#[trigger] c[i]),
    ensures
        canonical_code(c) == Ok::<Seq<char>, Error>(c),
{
    assert(crate::code::is_digit(c[0]));
    assert(crate::code::is_digit(c[4]));
    assert(crate::code::trim_start(c) == c);
    assert(crate::code::trim_end(c) == c);
    assert(c.subrange(0, 5) =~= c);
}

/// Whether some record of the dataset has the canonical form of `zipcode`
/// as its code. A malformed code gives the validation error.
pub fn is_real(db: &Database, zipcode: &str) -> (r: Result<bool, Error>)
    ensures
        r == is_real_spec(*db, zipcode@),
{
    let code = match clean_zipcode(zipcode) {
        Ok(c) => c,
        Err(e) => return Err(e),
    };
    proof {
        let t = crate::code::trimmed(zipcode@);
        assert forall|i: int| 0 <= i < 5 implies crate::code::is_digit(#[trigger] code@[i]) by {
            assert(code@[i] == t[i]);
        }
        lemma_canonical_fixed(code@);
    }
    let found = match matching(db, code.as_str(), None) {
        Ok(v) => v,
        Err(e) => return Err(e),
    };
    proof {
        let s = views(db.records());
        lemma_filter_empty(s, |x: ZipcodeView| x.zip_code == code@);
        if found.len() == 0 {
            assert forall|i: int| 0 <= i < db.records().len() implies #[trigger] db.records()[i].zip_code@ != code@ by {
                assert(s[i] == db.records()[i]@);
            }
        } else {
            let i = choose|i: int| 0 <= i < s.len() && (|x: ZipcodeView| x.zip_code == code@)(#[trigger] s[i]);
            assert(db.records()[i].zip_code@ == code@);
        }
    }
    Ok(found.len() > 0)
}

/// `f` behaves as a function from records to `bool`: it accepts every
/// record and never gives two answers for one record.
pub open spec fn is_predicate<F: Fn(&Zipcode) -> bool>(f: F) -> bool {
    forall|z: Zipcode|
        #![trigger f.requires((&z,))]
        #![trigger f.ensures((&z,), true)]
        f.requires((&z,)) && !(f.ensures((&z,), true) && f.ensures((&z,), false))
}

/// Whether every filter of `filters` answers `true` on `z`.
pub open spec fn passes<F: Fn(&Zipcode) -> bool>(filters: Seq<F>, z: Zipcode) -> bool {
    forall|i: int| 0 <= i < filters.len() ==> #[trigger] filters[i].ensures((&z,), true)
}

/// What `filter_by` returns: the records of the scope that pass every filter.
pub open spec fn filter_spec<F: Fn(&Zipcode) -> bool>(
    db: Database,
    filters: Seq<F>,
    zipcodes: Option<Vec<Zipcode>>,
) -> Seq<ZipcodeView> {
    views(scope(db, zipcodes).filter(|z: Zipcode| passes(filters, z)))
}

/// Runs the filters on `z` in order, stopping at the first that answers
/// `false`.
fn passes_all<F: Fn(&Zipcode) -> bool>(filters: &Vec<F>, z: &Zipcode) -> (r: bool)
    requires
        forall|i: int| 0 <= i < filters.len() ==> is_predicate(#[trigger] filters@[i]),
    ensures
        r == passes(filters@, *z),
{
    let mut k: usize = 0;
    let mut keep = true;
    while keep && k < filters.len()
        invariant
            k <= filters.len(),
            forall|i: int| 0 <= i < filters.len() ==> is_predicate(#[trigger] filters@[i]),
            keep ==> forall|j: int| 0 <= j < k ==> #[trigger] filters@[j].ensures((z,), true),
            !keep ==> exists|j: int| 0 <= j < k && !#[trigger] filters@[j].ensures((z,), true),
        decreases filters.len() - k + (if keep { 1int } else { 0int }),
    {
        let f = &filters[k];
        proof {
            assert(is_predicate(filters@[k as int]));
            assert(f.requires((z,)));
        }
        let ok = f(z);
        if !ok {
            proof {
                assert(!filters@[k as int].ensures((z,), true));
            }
            keep = false;
        }
        k = k + 1;
    }
    keep
}

/// Every record of the search scope (the override `zipcodes` when given,
/// else the dataset) on which all `filters` answer `true`, in order. No
/// filters keep every record. Never fails.
pub fn filter_by<F: Fn(&Zipcode) -> bool>(
    db: &Database,
    filters: Vec<F>,
    zipcodes: Option<Vec<Zipcode>>,
) -> (r: Result<Vec<Zipcode>, Error>)
    requires
        forall|i: int| 0 <= i < filters.len() ==> is_predicate(#[trigger] filters@[i]),
    ensures
        r matches Ok(v) && views(v@) == filter_spec(*db, filters@, zipcodes),
{
    let src: &Vec<Zipcode> = match &zipcodes {
        Some(v) => v,
        None => db.zipcodes(),
    };
    let ghost pred = |z: Zipcode| passes(filters@, z);
    let mut r: Vec<Zipcode> = Vec::new();
    let mut i: usize = 0;
    while i < src.len()
        invariant
            i <= src.len(),
            src@ == scope(*db, zipcodes),
            pred == (|z: Zipcode| passes(filters@, z)),
            forall|j: int| 0 <= j < filters.len() ==> is_predicate(#[trigger] filters@[j]),
            views(r@) == views(src@.take(i as int).filter(pred)),
        decreases src.len() - i,
    {
        proof {
            lemma_take_push(src@, i as int);
            src@.take(i as int).lemma_filter_push(src@[i as int], pred);
        }
        if passes_all(&filters, &src[i]) {
            let z = src[i].copy();
            proof {
                lemma_views_push(r@, z);
                lemma_views_push(src@.take(i as int).filter(pred), src@[i as int]);
            }
            r.push(z);
        }
        i = i + 1;
    }
    assert(src@.take(src.len() as int) =~= src@);
    Ok(r)
}

/// A copy of every record of the dataset, in order. The copy belongs to the
/// caller: changing it leaves the dataset as it was.
pub fn list_all(db: &Database) -> (r: Vec<Zipcode>)
    ensures
        views(r@) == views(db.records()),
{
    db.to_vec()
}

} // verus!
