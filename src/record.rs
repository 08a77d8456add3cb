use vstd::prelude::*;

verus! {

/// One postal-code record of the dataset.
#[derive(Clone, Debug)]
pub struct Zipcode {
    pub acceptable_cities: Vec<String>,
    pub active: bool,
    pub area_codes: Vec<String>,
    pub city: String,
    pub country: String,
    pub county: String,
    pub lat: String,
    pub long: String,
    pub state: String,
    pub timezone: String,
    pub unacceptable_cities: Vec<String>,
    pub world_region: String,
    pub zip_code: String,
    pub zip_code_type: String,
}

/// The contents of a record, as character sequences.
pub struct ZipcodeView {
    pub acceptable_cities: Seq<Seq<char>>,
    pub active: bool,
    pub area_codes: Seq<Seq<char>>,
    pub city: Seq<char>,
    pub country: Seq<char>,
    pub county: Seq<char>,
    pub lat: Seq<char>,
    pub long: Seq<char>,
    pub state: Seq<char>,
    pub timezone: Seq<char>,
    pub unacceptable_cities: Seq<Seq<char>>,
    pub world_region: Seq<char>,
    pub zip_code: Seq<char>,
    pub zip_code_type: Seq<char>,
}

pub open spec fn strings_view(v: Vec<String>) -> Seq<Seq<char>> {
    v@.map_values(|s: String| s@)
}

impl View for Zipcode {
    type V = ZipcodeView;

    open spec fn view(&self) -> ZipcodeView {
        ZipcodeView {
            acceptable_cities: strings_view(self.acceptable_cities),
            active: self.active,
            area_codes: strings_view(self.area_codes),
            city: self.city@,
            country: self.country@,
            county: self.county@,
            lat: self.lat@,
            long: self.long@,
            state: self.state@,
            timezone: self.timezone@,
            unacceptable_cities: strings_view(self.unacceptable_cities),
            world_region: self.world_region@,
            zip_code: self.zip_code@,
            zip_code_type: self.zip_code_type@,
        }
    }
}

/// The contents of each record of `s`, in order.
pub open spec fn views(s: Seq<Zipcode>) -> Seq<ZipcodeView> {
    s.map_values(|z: Zipcode| z@)
}

fn copy_strings(v: &Vec<String>) -> (r: Vec<String>)
    ensures
        strings_view(r) == strings_view(*v),
{
    let mut r: Vec<String> = Vec::new();
    let mut i: usize = 0;
    while i < v.len()
        invariant
            i <= v.len(),
            r@.len() == i,
            forall|j: int| 0 <= j < i ==> r@[j]@ == v@[j]@,
        decreases v.len() - i,
    {
        r.push(v[i].clone());
        i = i + 1;
    }
    assert(strings_view(r) =~= strings_view(*v));
    r
}

impl Zipcode {
    /// A copy of this record with the same contents.
    pub fn copy(&self) -> (r: Zipcode)
        ensures
            r@ == self@,
    {
        Zipcode {
            acceptable_cities: copy_strings(&self.acceptable_cities),
            active: self.active,
            area_codes: copy_strings(&self.area_codes),
            city: self.city.clone(),
            country: self.country.clone(),
            county: self.county.clone(),
            lat: self.lat.clone(),
            long: self.long.clone(),
            state: self.state.clone(),
            timezone: self.timezone.clone(),
            unacceptable_cities: copy_strings(&self.unacceptable_cities),
            world_region: self.world_region.clone(),
            zip_code: self.zip_code.clone(),
            zip_code_type: self.zip_code_type.clone(),
        }
    }
}

/// Copies every record of `v`, keeping their order.
pub(crate) fn copy_all(v: &Vec<Zipcode>) -> (r: Vec<Zipcode>)
    ensures
        views(r@) == views(v@),
{
    let mut r: Vec<Zipcode> = Vec::new();
    let mut i: usize = 0;
    while i < v.len()
        invariant
            i <= v.len(),
            views(r@) == views(v@.take(i as int)),
        decreases v.len() - i,
    {
        let z = v[i].copy();
        proof {
            assert(v@.take(i + 1) =~= v@.take(i as int).push(v@[i as int]));
            assert(views(r@.push(z)) =~= views(r@).push(z@));
            assert(views(v@.take(i as int).push(v@[i as int])) =~= views(v@.take(i as int)).push(v@[i as int]@));
        }
        r.push(z);
        i = i + 1;
    }
    assert(v@.take(v.len() as int) =~= v@);
    r
}

} // verus!
