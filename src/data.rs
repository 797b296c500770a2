//! The table of supported hardware: vendors with their MCUs, and the target
//! triple of each MCU family.

use vstd::prelude::*;

verus! {

#[verifier::external_type_specification]
#[verifier::external_body]
pub struct ExRegex(regex::Regex);

#[verifier::external_type_specification]
#[verifier::external_body]
pub struct ExRegexError(regex::Error);

/// Whether a regular expression pattern compiles.
pub uninterp spec fn regex_compiles(pattern: Seq<char>) -> bool;

/// The pattern a compiled regular expression was built from.
pub uninterp spec fn regex_source(re: regex::Regex) -> Seq<char>;

/// Whether the regular expression `pattern` matches somewhere in `text`.
pub uninterp spec fn regex_matches(pattern: Seq<char>, text: Seq<char>) -> bool;

/// Relies on regex::Regex::new: compiles a pattern, failing exactly on
/// patterns that do not compile (which depends on the pattern alone); the
/// compiled expression keeps its pattern (Regex::as_str).
#[verifier::external_body]
fn compile_regex(pattern: &str) -> (r: Result<regex::Regex, regex::Error>)
    ensures
        r is Ok == regex_compiles(pattern@),
        r matches Ok(re) ==> regex_source(re) == pattern@,
{
    regex::Regex::new(pattern)
}

/// Relies on regex::Regex::is_match: whether the expression matches
/// somewhere in the text, which depends on its pattern and the text alone.
#[verifier::external_body]
fn regex_is_match(re: &regex::Regex, text: &str) -> (r: bool)
    ensures
        r == regex_matches(regex_source(*re), text@),
{
    re.is_match(text)
}

/// A vendor and the MCUs supported for it.
pub struct Vendor {
    pub name: String,
    pub mcu_list: Vec<String>,
}

/// An MCU family, given by a pattern over MCU names, and its target triple.
pub struct Flavor {
    pub regex: String,
    pub target: String,
}

/// The table of supported hardware.
pub struct Data {
    pub vendors: Vec<Vendor>,
    pub flavors: Vec<Flavor>,
}

/// Failures of lookups in the hardware table.
#[derive(Clone, Copy, Debug, PartialEq, Eq, Structural)]
pub enum DataError {
    /// No vendor of that name is listed.
    UnknownVendor,
    /// The vendor is not listed.
    InvalidVendor,
    /// The MCU is not listed for the vendor.
    InvalidMcu,
    /// No MCU family matches the MCU.
    NoTarget,
    /// A family's pattern does not compile.
    InvalidPattern,
}

pub open spec fn strings_view(v: Seq<String>) -> Seq<Seq<char>> {
    v.map_values(|s: String| s@)
}

/// The names of the listed vendors, in order.
pub open spec fn vendor_names(vs: Seq<Vendor>) -> Seq<Seq<char>> {
    vs.map_values(|v: Vendor| v.name@)
}

/// The position of the first vendor called `name`, at or after `i`.
pub open spec fn find_vendor(vs: Seq<Vendor>, name: Seq<char>, i: int) -> Option<int>
    decreases vs.len() - i,
{
    if i < 0 || i >= vs.len() {
        None
    } else if vs[i].name@ == name {
        Some(i)
    } else {
        find_vendor(vs, name, i + 1)
    }
}

/// The MCUs listed for the first vendor called `name`.
pub open spec fn mcus_of(vs: Seq<Vendor>, name: Seq<char>) -> Result<Seq<Seq<char>>, DataError> {
    match find_vendor(vs, name, 0) {
        Some(i) => Ok(strings_view(vs[i].mcu_list@)),
        None => Err(DataError::UnknownVendor),
    }
}

/// The target of the first family, at or after `i`, whose pattern matches
/// `mcu`; a pattern that does not compile stops the search.
pub open spec fn target_of(fs: Seq<Flavor>, mcu: Seq<char>, i: int) -> Result<Seq<char>, DataError>
    decreases fs.len() - i,
{
    if i < 0 || i >= fs.len() {
        Err(DataError::NoTarget)
    } else if !regex_compiles(fs[i].regex@) {
        Err(DataError::InvalidPattern)
    } else if regex_matches(fs[i].regex@, mcu) {
        Ok(fs[i].target@)
    } else {
        target_of(fs, mcu, i + 1)
    }
}

/// Whether `vendor` is listed and `mcu` is listed for it.
pub open spec fn validation_of(vs: Seq<Vendor>, vendor: Seq<char>, mcu: Seq<char>) -> Result<(), DataError> {
    if !vendor_names(vs).contains(vendor) {
        Err(DataError::InvalidVendor)
    } else if !mcus_of(vs, vendor)->Ok_0.contains(mcu) {
        Err(DataError::InvalidMcu)
    } else {
        Ok(())
    }
}

fn copy_strings(v: &Vec<String>) -> (r: Vec<String>)
    ensures
        strings_view(r@) == strings_view(v@),
{
    let mut r: Vec<String> = Vec::new();
    let mut i: usize = 0;
    while i < v.len()
        invariant
            0 <= i <= v.len(),
            strings_view(r@) == strings_view(v@.take(i as int)),
        decreases v.len() - i,
    {
        let c = v[i].clone();
        proof {
            assert(c@ == v@[i as int]@);
        }
        r.push(c);
        proof {
            assert(strings_view(v@.take(i + 1)) =~= strings_view(v@.take(i as int)).push(v@[i as int]@));
            assert(strings_view(r@) =~= strings_view(v@.take(i + 1)));
        }
        i = i + 1;
    }
    proof {
        assert(v@.take(v.len() as int) =~= v@);
    }
    r
}

fn contains_string(v: &Vec<String>, s: &String) -> (r: bool)
    ensures
        r == strings_view(v@).contains(s@),
{
    let mut i: usize = 0;
    while i < v.len()
        invariant
            0 <= i <= v.len(),
            forall|j: int| 0 <= j < i ==> v@[j]@ != s@,
        decreases v.len() - i,
    {
        if v[i] == *s {
            proof {
                assert(strings_view(v@)[i as int] == s@);
            }
            return true;
        }
        i = i + 1;
    }
    proof {
        if strings_view(v@).contains(s@) {
            let j = choose|j: int| 0 <= j < strings_view(v@).len() && strings_view(v@)[j] == s@;
            assert(v@[j]@ == s@);
        }
    }
    false
}

impl Data {
    /// The names of the listed vendors, in order.
    pub fn vendor_list(&self) -> (r: Vec<String>)
        ensures
            strings_view(r@) == vendor_names(self.vendors@),
    {
        let mut r: Vec<String> = Vec::new();
        let mut i: usize = 0;
        while i < self.vendors.len()
            invariant
                0 <= i <= self.vendors.len(),
                strings_view(r@) == vendor_names(self.vendors@.take(i as int)),
            decreases self.vendors.len() - i,
        {
            let c = self.vendors[i].name.clone();
            r.push(c);
            proof {
                assert(vendor_names(self.vendors@.take(i + 1)) =~= vendor_names(self.vendors@.take(i as int)).push(self.vendors@[i as int].name@));
                assert(strings_view(r@) =~= vendor_names(self.vendors@.take(i + 1)));
            }
            i = i + 1;
        }
        proof {
            assert(self.vendors@.take(self.vendors.len() as int) =~= self.vendors@);
        }
        r
    }

    /// The MCUs listed for a vendor; `UnknownVendor` when it is not listed.
    pub fn mcu_list(&self, vendor: &str) -> (r: Result<Vec<String>, DataError>)
        ensures
            match r {
                Ok(v) => mcus_of(self.vendors@, vendor@) == Ok::<Seq<Seq<char>>, DataError>(
                    strings_view(v@),
                ),
                Err(e) => mcus_of(self.vendors@, vendor@) == Err::<Seq<Seq<char>>, DataError>(e),
            },
    {
        let key = String::from_str(vendor);
        let mut i: usize = 0;
        while i < self.vendors.len()
            invariant
                0 <= i <= self.vendors.len(),
                key@ == vendor@,
                find_vendor(self.vendors@, vendor@, 0) == find_vendor(self.vendors@, vendor@, i as int),
            decreases self.vendors.len() - i,
        {
            if self.vendors[i].name == key {
                return Ok(copy_strings(&self.vendors[i].mcu_list));
            }
            i = i + 1;
        }
        Err(DataError::UnknownVendor)
    }

    /// The target triple of an MCU: that of the first family whose pattern
    /// matches it. `NoTarget` when none does; `InvalidPattern` when a pattern
    /// met on the way does not compile.
    pub fn target(&self, mcu: &str) -> (r: Result<String, DataError>)
        ensures
            match r {
                Ok(t) => target_of(self.flavors@, mcu@, 0) == Ok::<Seq<char>, DataError>(t@),
                Err(e) => target_of(self.flavors@, mcu@, 0) == Err::<Seq<char>, DataError>(e),
            },
    {
        let mut i: usize = 0;
        while i < self.flavors.len()
            invariant
                0 <= i <= self.flavors.len(),
                target_of(self.flavors@, mcu@, 0) == target_of(self.flavors@, mcu@, i as int),
            decreases self.flavors.len() - i,
        {
            let flavor = &self.flavors[i];
            match compile_regex(flavor.regex.as_str()) {
                Err(_) => {
                    return Err(DataError::InvalidPattern);
                },
                Ok(re) => {
                    if regex_is_match(&re, mcu) {
                        return Ok(flavor.target.clone());
                    }
                },
            }
            i = i + 1;
        }
        Err(DataError::NoTarget)
    }

    /// Checks that `vendor` is listed and that `mcu` is listed for it.
    pub fn validate(&self, vendor: &str, mcu: &str) -> (r: Result<(), DataError>)
        ensures
            r == validation_of(self.vendors@, vendor@, mcu@),
    {
        let names = self.vendor_list();
        let key = String::from_str(vendor);
        if !contains_string(&names, &key) {
            return Err(DataError::InvalidVendor);
        }
        let m = String::from_str(mcu);
        match self.mcu_list(vendor) {
            Ok(list) => {
                if !contains_string(&list, &m) {
                    return Err(DataError::InvalidMcu);
                }
                Ok(())
            },
            Err(_) => {
                proof {
                    let j = choose|j: int|
                        0 <= j < vendor_names(self.vendors@).len() && vendor_names(self.vendors@)[j]
                            == vendor@;
                    lemma_find_vendor_some(self.vendors@, vendor@, 0, j);
                }
                Err(DataError::UnknownVendor)
            },
        }
    }
}

proof fn lemma_find_vendor_some(vs: Seq<Vendor>, name: Seq<char>, i: int, j: int)
    requires
        0 <= i <= j < vs.len(),
        vs[j].name@ == name,
    ensures
        find_vendor(vs, name, i) is Some,
    decreases j - i,
{
    if vs[i].name@ != name {
        lemma_find_vendor_some(vs, name, i + 1, j);
    }
}

} // verus!
