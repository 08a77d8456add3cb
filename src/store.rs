use std::io::Read;
use vstd::prelude::*;

use crate::record::{copy_all, views, Zipcode};

verus! {

/// The text that bzip2 decompression of `compressed` yields, if it yields
/// valid UTF-8.
pub uninterp spec fn bunzip_text(compressed: Seq<u8>) -> Option<Seq<char>>;

/// Relies on bzip2::read::BzDecoder, read to its end as UTF-8 text: the
/// outcome depends on the compressed bytes alone.
#[verifier::external_body]
fn decompress_text(compressed: &[u8]) -> (r: Option<String>)
    ensures
        match r {
            Some(t) => bunzip_text(compressed@) == Some(t@),
            None => bunzip_text(compressed@) is None,
        },
{
    let mut text = String::new();
    match bzip2::read::BzDecoder::new(compressed).read_to_string(&mut text) {
        Ok(_) => Some(text),
        Err(_) => None,
    }
}

/// Decompresses a bzip2-compressed dataset into its text; `None` when the
/// bytes are not a bzip2 stream of UTF-8 text.
pub fn dataset_text(compressed: &[u8]) -> (r: Option<String>)
    ensures
        match bunzip_text(compressed@) {
            Some(t) => r is Some && r->0@ == t,
            None => r is None,
        },
{
    decompress_text(compressed)
}

/// The immutable dataset: an ordered sequence of records, built once and
/// then only read. Records sharing a code are all kept.
pub struct Database {
    zipcodes: Vec<Zipcode>,
}

impl Database {
    /// The records of the dataset, in order.
    pub closed spec fn records(&self) -> Seq<Zipcode> {
        self.zipcodes@
    }

    /// Builds the dataset from parsed records, keeping them as given.
    pub fn new(zipcodes: Vec<Zipcode>) -> (r: Database)
        ensures
            r.records() == zipcodes@,
    {
        Database { zipcodes }
    }

    /// Read access to the records.
    pub fn zipcodes(&self) -> (r: &Vec<Zipcode>)
        ensures
            r@ == self.records(),
    {
        &self.zipcodes
    }

    /// Number of records.
    pub fn len(&self) -> (r: usize)
        ensures
            r == self.records().len(),
    {
        self.zipcodes.len()
    }

    /// A fresh copy of every record, in order.
    pub fn to_vec(&self) -> (r: Vec<Zipcode>)
        ensures
            views(r@) == views(self.records()),
    {
        copy_all(&self.zipcodes)
    }
}

} // verus!
