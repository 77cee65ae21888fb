//! Lookups in the by-uuid links of the device directory.
use vstd::prelude::*;

verus! {

/// One link of the by-uuid directory: the UUID it is named by, and the device it leads
/// to once resolved, if it could be resolved.
#[derive(Debug, Clone, PartialEq)]
pub struct UuidLink {
    pub uuid: String,
    pub target: Option<String>,
}

/// True if `links[i]` resolves to the device `path`.
pub open spec fn leads_to(links: Seq<UuidLink>, i: int, path: Seq<char>) -> bool {
    match links[i].target {
        Some(t) => t@ == path,
        None => false,
    }
}

/// True if `links[i]` is named `uuid` and resolves to a device.
pub open spec fn named(links: Seq<UuidLink>, i: int, uuid: Seq<char>) -> bool {
    links[i].uuid@ == uuid && links[i].target is Some
}

/// Returns the UUID of the device `path`: the name of the first link that resolves to it.
pub fn get_uuid(path: &str, links: &Vec<UuidLink>) -> (r: Option<String>)
    ensures
        match r {
            Some(u) => exists|i: int|
                0 <= i < links@.len() && leads_to(links@, i, path@) && u@ == links@[i].uuid@
                    && forall|j: int| 0 <= j < i ==> !#[trigger] leads_to(links@, j, path@),
            None => forall|i: int| 0 <= i < links@.len() ==> !#[trigger] leads_to(links@, i, path@),
        },
{
    let mut i: usize = 0;
    while i < links.len()
        invariant
            i <= links@.len(),
            forall|j: int| 0 <= j < i ==> !#[trigger] leads_to(links@, j, path@),
        decreases links.len() - i,
    {
        let link = &links[i];
        match &link.target {
            Some(t) => {
                if t.as_str().to_owned() == path.to_owned() {
                    assert(leads_to(links@, i as int, path@));
                    return Some(link.uuid.clone());
                }
            },
            None => {},
        }
        i = i + 1;
    }
    None
}

/// Returns the device that the UUID `uuid` leads to: the target of the first link named
/// `uuid` that resolves to a device.
pub fn from_uuid(uuid: &str, links: &Vec<UuidLink>) -> (r: Option<String>)
    ensures
        match r {
            Some(p) => exists|i: int|
                0 <= i < links@.len() && named(links@, i, uuid@) && p@ == links@[i].target.unwrap()@
                    && forall|j: int| 0 <= j < i ==> !#[trigger] named(links@, j, uuid@),
            None => forall|i: int| 0 <= i < links@.len() ==> !#[trigger] named(links@, i, uuid@),
        },
{
    let mut i: usize = 0;
    while i < links.len()
        invariant
            i <= links@.len(),
            forall|j: int| 0 <= j < i ==> !#[trigger] named(links@, j, uuid@),
        decreases links.len() - i,
    {
        let link = &links[i];
        if link.uuid.as_str().to_owned() == uuid.to_owned() {
            match &link.target {
                Some(t) => {
                    assert(named(links@, i as int, uuid@));
                    return Some(t.clone());
                },
                None => {},
            }
        }
        i = i + 1;
    }
    None
}

} // verus!
