//! Decisions on the block devices of the system: the fingerprint of the device directory
//! and the resolution of mapped devices to the devices they are built on.
use vstd::prelude::*;

use std::collections::hash_map::DefaultHasher;
use std::hash::Hasher;
use vstd::std_specs::hash::DefaultHasherAdditionalSpecFns;
use vstd::string::StringExecFns;

verus! {

/// One entry of the device directory: its path, and when it was created, in nanoseconds
/// since the Unix epoch, if that is known.
#[derive(Debug, Clone, PartialEq)]
pub struct DeviceNode {
    pub path: Vec<u8>,
    pub created: Option<u64>,
}

/// The eight bytes of `x`, least significant first.
pub open spec fn le_bytes(x: u64) -> Seq<u8> {
    Seq::new(8, |k: int| (x >> (8 * k) as u64) as u8)
}

/// The byte strings fed to the hasher for `nodes`: each path, followed by the creation
/// time when it is known.
pub open spec fn layout_stream(nodes: Seq<DeviceNode>) -> Seq<Seq<u8>>
    decreases nodes.len(),
{
    if nodes.len() == 0 {
        seq![]
    } else {
        let prev = layout_stream(nodes.drop_last()).push(nodes.last().path@);
        match nodes.last().created {
            Some(t) => prev.push(le_bytes(t)),
            None => prev,
        }
    }
}

fn u64_le_bytes(x: u64) -> (r: Vec<u8>)
    ensures
        r@ == le_bytes(x),
{
    let mut out: Vec<u8> = Vec::new();
    let mut k: u64 = 0;
    while k < 8
        invariant
            k <= 8,
            out@.len() == k,
            forall|j: int| 0 <= j < k ==> out@[j] == (x >> (8 * j) as u64) as u8,
        decreases 8 - k,
    {
        out.push((x >> (8 * k)) as u8);
        k = k + 1;
    }
    assert(out@ =~= le_bytes(x));
    out
}

/// A fingerprint of the device directory, which changes when a device node is added,
/// removed or recreated.
pub fn device_layout_hash(nodes: &Vec<DeviceNode>) -> (r: u64)
    ensures
        r == DefaultHasher::spec_finish(layout_stream(nodes@)),
{
    let mut hasher = DefaultHasher::new();
    let mut i: usize = 0;
    while i < nodes.len()
        invariant
            i <= nodes@.len(),
            hasher@ == layout_stream(nodes@.subrange(0, i as int)),
        decreases nodes.len() - i,
    {
        let node = &nodes[i];
        proof {
            assert(nodes@.subrange(0, i + 1).drop_last() =~= nodes@.subrange(0, i as int));
            assert(nodes@.subrange(0, i + 1).last() == nodes@[i as int]);
        }
        hasher.write(node.path.as_slice());
        match node.created {
            Some(t) => {
                let bytes = u64_le_bytes(t);
                hasher.write(bytes.as_slice());
            },
            None => {},
        }
        i = i + 1;
    }
    proof {
        assert(nodes@.subrange(0, nodes@.len() as int) =~= nodes@);
    }
    hasher.finish()
}

/// The path of the device node of the block device `name`.
pub open spec fn dev_path(name: Seq<char>) -> Seq<char> {
    seq!['/', 'd', 'e', 'v', '/'] + name
}

/// The device node that the block device `name` is built on, given the entries of its
/// `slaves` directory, or `None` when it has no such directory: the device itself when
/// it has no slaves directory, its single slave when it has one, and nothing when it has
/// several or none.
pub fn resolve_slave(name: &str, slaves: Option<&Vec<String>>) -> (r: Option<String>)
    ensures
        match slaves {
            None => r is Some && r.unwrap()@ == dev_path(name@),
            Some(v) => if v@.len() == 1 {
                r is Some && r.unwrap()@ == dev_path(v@[0]@)
            } else {
                r is None
            },
        },
{
    proof {
        reveal_strlit("/dev/");
        assert("/dev/"@ =~= seq!['/', 'd', 'e', 'v', '/']);
    }
    match slaves {
        None => Some(String::from_str("/dev/").concat(name)),
        Some(v) => if v.len() == 1 {
            Some(String::from_str("/dev/").concat(v[0].as_str()))
        } else {
            None
        },
    }
}

/// One step of following a chain of slaves down to a physical device: given the device
/// reached so far and the slave found under it, returns the next device to follow, or
/// `None` once no slave was found or the chain no longer moves.
pub fn next_physical(physical: &Option<String>, slave: Option<String>) -> (r: Option<String>)
    ensures
        match slave {
            None => r is None,
            Some(s) => match physical {
                Some(p) => if p@ == s@ {
                    r is None
                } else {
                    r == Some(s)
                },
                None => r == Some(s),
            },
        },
{
    match slave {
        None => None,
        Some(s) => match physical {
            Some(p) => if p.as_str().to_owned() == s.as_str().to_owned() {
                None
            } else {
                Some(s)
            },
            None => Some(s),
        },
    }
}

} // verus!
