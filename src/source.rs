//! Audio sources of a broadcaster, and the choice of a capture device.
use crate::text::{contains_chars, occurs_in};
use vstd::prelude::*;

verus! {

/// A file that is decoded and broadcast in a loop.
#[derive(Debug, Clone)]
pub struct FileSource {
    pub path: String,
}

impl FileSource {
    pub fn new(path: String) -> (r: Self)
        ensures
            r.path@ == path@,
    {
        FileSource { path }
    }
}

/// A capture device: the one whose name contains `device_name`, or the
/// system's default input when there is none.
#[derive(Debug, Clone)]
pub struct LiveSource {
    pub device_name: Option<String>,
}

impl LiveSource {
    pub fn new(device_name: Option<String>) -> (r: Self)
        ensures
            r.device_name == device_name,
    {
        LiveSource { device_name }
    }
}

/// What `str::to_lowercase` returns.
pub uninterp spec fn lower_of(s: Seq<char>) -> Seq<char>;

/// Relies on `str::to_lowercase`: the lowercase mapping of `s`, a function of
/// its characters alone.
#[verifier::external_body]
fn lowercase(s: &str) -> (r: String)
    ensures
        r@ == lower_of(s@),
{
    s.to_lowercase()
}

/// Whether device `i`, whose name may be unreadable, has a name containing `needle`.
pub open spec fn name_holds(names: Seq<Option<String>>, i: int, needle: Seq<char>) -> bool {
    names[i] matches Some(n) && occurs_in(n@, needle)
}

/// Whether device `i` is the first whose name holds `needle`.
pub open spec fn is_first_holding(names: Seq<Option<String>>, i: int, needle: Seq<char>) -> bool {
    &&& 0 <= i < names.len()
    &&& name_holds(names, i, needle)
    &&& forall|j: int| 0 <= j < i ==> !name_holds(names, j, needle)
}

/// The first device whose name contains `needle`, comparing characters as
/// they are.
pub fn first_holding(names: &Vec<Option<String>>, needle: &str) -> (r: Option<usize>)
    ensures
        r is None <==> forall|i: int| 0 <= i < names@.len() ==> !name_holds(names@, i, needle@),
        r matches Some(i) ==> is_first_holding(names@, i as int, needle@),
{
    let mut i: usize = 0;
    while i < names.len()
        invariant
            i <= names@.len(),
            forall|j: int| 0 <= j < i ==> !name_holds(names@, j, needle@),
        decreases names@.len() - i,
    {
        match &names[i] {
            Some(n) => {
                if contains_chars(n, needle) {
                    assert(name_holds(names@, i as int, needle@));
                    return Some(i);
                }
            },
            None => {},
        }
        i = i + 1;
    }
    None
}

/// Whether `low` is `name` lower-cased, both unreadable alike.
pub open spec fn lowered_pair(name: Option<String>, low: Option<String>) -> bool {
    match (name, low) {
        (Some(x), Some(y)) => y@ == lower_of(x@),
        (None, None) => true,
        _ => false,
    }
}

/// The input device to capture from: the first, in the order given, whose
/// name contains `search` without regard to case. A device whose name cannot
/// be read is passed over.
pub fn find_device_by_name(names: &Vec<Option<String>>, search: &str) -> (r: Option<usize>)
    ensures
        r is None <==> forall|i: int|
            0 <= i < names@.len() ==> !(#[trigger] names@[i] matches Some(n) && occurs_in(
                lower_of(n@),
                lower_of(search@),
            )),
        r matches Some(i) ==> {
            &&& i < names@.len()
            &&& names@[i as int] matches Some(n) && occurs_in(lower_of(n@), lower_of(search@))
            &&& forall|j: int|
                0 <= j < i ==> !(#[trigger] names@[j] matches Some(n) && occurs_in(
                    lower_of(n@),
                    lower_of(search@),
                ))
        },
{
    let needle = lowercase(search);
    let mut low: Vec<Option<String>> = Vec::with_capacity(names.len());
    let mut i: usize = 0;
    while i < names.len()
        invariant
            i <= names@.len(),
            low@.len() == i,
            needle@ == lower_of(search@),
            forall|k: int| 0 <= k < i ==> lowered_pair(#[trigger] names@[k], low@[k]),
        decreases names@.len() - i,
    {
        match &names[i] {
            Some(n) => low.push(Some(lowercase(n))),
            None => low.push(None),
        }
        i = i + 1;
    }
    let r = first_holding(&low, needle.as_str());
    proof {
        assert forall|j: int| 0 <= j < names@.len() implies (name_holds(low@, j, needle@) <==> (
        #[trigger] names@[j] matches Some(n) && occurs_in(lower_of(n@), lower_of(search@)))) by {
            assert(lowered_pair(names@[j], low@[j]));
        }
    }
    r
}

} // verus!
