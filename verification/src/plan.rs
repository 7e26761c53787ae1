//! What a probe run uploads and where: the bucket, the payload sizes, the
//! object keys, and what is measured of the uploads.

use crate::random::{is_uuid_v4_text, random_in_range, random_uuid_text};
use crate::text::{digits_of, lemma_number_ends_at_non_digit, push_decimal, same_text};
use vstd::prelude::*;
use vstd::string::StringExecFns;

verus! {

/// The number of bytes in one MiB.
pub const MIB: u64 = 1048576;

/// The fewest and the most uploads of one run.
pub const MIN_UPLOADS: u64 = 5;

pub const MAX_UPLOADS: u64 = 100;

/// The smallest and the largest payload of one upload, in MiB.
pub const MIN_PAYLOAD_MIB: u64 = 1;

pub const MAX_PAYLOAD_MIB: u64 = 16;

/// One upload: the key of the object and the size of its payload.
#[derive(Debug, PartialEq, Eq)]
pub struct UploadTask {
    pub object_key: String,
    pub size_bytes: u64,
}

/// The key of the object that the upload at place `place` stores, whose
/// payload has `size_mib` whole MiB.
pub open spec fn object_key_of(place: nat, size_mib: nat) -> Seq<char> {
    "random_data_"@ + digits_of(place) + "_"@ + digits_of(size_mib) + "mb.bin"@
}

/// The name of a bucket whose unique part is `id`.
pub open spec fn bucket_name_of(id: Seq<char>) -> Seq<char> {
    "lernspark-"@ + id
}

impl UploadTask {
    /// Whether this is the upload at place `place` of a plan: its key tells
    /// the place and the size, in whole MiB.
    pub open spec fn made_for(&self, place: nat) -> bool {
        self.object_key@ == object_key_of(place, (self.size_bytes / MIB) as nat)
    }

    /// The size is a whole number of MiB within the bounds of a payload.
    pub open spec fn in_bounds(&self) -> bool {
        exists|n: int|
            MIN_PAYLOAD_MIB <= n <= MAX_PAYLOAD_MIB && self.size_bytes == #[trigger] (n * MIB)
    }

    /// The upload of `size_bytes` bytes at place `place` of a plan.
    pub fn new(place: usize, size_bytes: u64) -> (task: UploadTask)
        ensures
            task.size_bytes == size_bytes,
            task.made_for(place as nat),
    {
        UploadTask { object_key: object_key(place, size_bytes), size_bytes }
    }
}

/// Every upload of a plan has the key of its own place.
pub open spec fn plan_wf(tasks: Seq<UploadTask>) -> bool {
    forall|i: int| 0 <= i < tasks.len() ==> (#[trigger] tasks[i]).made_for(i as nat)
}

/// The key under which the upload at place `place` stores a payload of
/// `size_bytes` bytes: it tells the place and the size in whole MiB.
pub fn object_key(place: usize, size_bytes: u64) -> (key: String)
    ensures
        key@ == object_key_of(place as nat, (size_bytes / MIB) as nat),
{
    let mut key = String::from_str("random_data_");
    push_decimal(&mut key, place as u64);
    key.append("_");
    push_decimal(&mut key, size_bytes / MIB);
    key.append("mb.bin");
    key
}

/// Uploads at different places have different keys, whatever their sizes.
pub proof fn keys_of_different_places_differ(
    place_a: nat,
    size_a: nat,
    place_b: nat,
    size_b: nat,
)
    requires
        place_a != place_b,
    ensures
        object_key_of(place_a, size_a) != object_key_of(place_b, size_b),
{
    let head = "random_data_"@;
    let after_a = "_"@ + digits_of(size_a) + "mb.bin"@;
    let after_b = "_"@ + digits_of(size_b) + "mb.bin"@;
    let key_a = object_key_of(place_a, size_a);
    let key_b = object_key_of(place_b, size_b);
    reveal_strlit("_");
    assert(after_a[0] == '_');
    assert(after_b[0] == '_');
    assert(key_a =~= head + (digits_of(place_a) + after_a));
    assert(key_b =~= head + (digits_of(place_b) + after_b));
    if key_a == key_b {
        assert((head + (digits_of(place_a) + after_a)).skip(head.len() as int) =~= digits_of(
            place_a,
        ) + after_a);
        assert((head + (digits_of(place_b) + after_b)).skip(head.len() as int) =~= digits_of(
            place_b,
        ) + after_b);
        lemma_number_ends_at_non_digit(place_a, place_b, after_a, after_b);
    }
}

/// No key stands twice among the keys of a plan.
pub proof fn planned_keys_are_distinct(tasks: Seq<UploadTask>)
    requires
        plan_wf(tasks),
    ensures
        keys_of(tasks).no_duplicates(),
{
    assert forall|i: int, j: int|
        0 <= i < tasks.len() && 0 <= j < tasks.len() && i != j implies keys_of(tasks)[i]
        != keys_of(tasks)[j] by {
        keys_of_different_places_differ(
            i as nat,
            (tasks[i].size_bytes / MIB) as nat,
            j as nat,
            (tasks[j].size_bytes / MIB) as nat,
        );
    }
}

/// A bucket name that no earlier run has used: a fixed prefix and a fresh
/// version 4 UUID.
pub fn bucket_name() -> (name: String)
    ensures
        exists|id: Seq<char>| is_uuid_v4_text(id) && name@ == #[trigger] bucket_name_of(id),
{
    let id = random_uuid_text();
    let mut name = String::from_str("lernspark-");
    name.append(id.as_str());
    assert(name@ == bucket_name_of(id@));
    name
}

/// The keys of `tasks`, in order.
pub open spec fn keys_of(tasks: Seq<UploadTask>) -> Seq<Seq<char>> {
    Seq::new(tasks.len(), |i: int| tasks[i].object_key@)
}

/// Draws the uploads of one run: from 5 to 100 of them, each of 1 to 16 MiB.
/// No two of them share a key.
pub fn plan_uploads() -> (tasks: Vec<UploadTask>)
    ensures
        MIN_UPLOADS <= tasks@.len() <= MAX_UPLOADS,
        plan_wf(tasks@),
        keys_of(tasks@).no_duplicates(),
        forall|i: int| 0 <= i < tasks@.len() ==> (#[trigger] tasks@[i]).in_bounds(),
{
    let count = random_in_range(MIN_UPLOADS, MAX_UPLOADS);
    let mut tasks: Vec<UploadTask> = Vec::new();
    let mut i: usize = 0;
    while i < count as usize
        invariant
            i <= count <= MAX_UPLOADS,
            tasks@.len() == i,
            plan_wf(tasks@),
            forall|k: int| 0 <= k < i ==> (#[trigger] tasks@[k]).in_bounds(),
        decreases count - i,
    {
        let size_mib = random_in_range(MIN_PAYLOAD_MIB, MAX_PAYLOAD_MIB);
        let task = UploadTask::new(i, size_mib * MIB);
        assert(task.size_bytes == size_mib as int * MIB);
        tasks.push(task);
        i += 1;
    }
    proof {
        planned_keys_are_distinct(tasks@);
    }
    tasks
}

/// The sum of the sizes of `tasks`.
pub open spec fn total_bytes_of(tasks: Seq<UploadTask>) -> nat
    decreases tasks.len(),
{
    if tasks.len() == 0 {
        0
    } else {
        total_bytes_of(tasks.drop_last()) + tasks.last().size_bytes as nat
    }
}

/// Computes [`total_bytes_of`].
pub fn total_bytes(tasks: &Vec<UploadTask>) -> (total: u128)
    ensures
        total == total_bytes_of(tasks@),
{
    let mut total: u128 = 0;
    let mut i: usize = 0;
    while i < tasks.len()
        invariant
            i <= tasks.len(),
            total == total_bytes_of(tasks@.take(i as int)),
            total <= i * 0xFFFF_FFFF_FFFF_FFFF,
        decreases tasks.len() - i,
    {
        proof {
            assert(tasks@.take(i + 1).drop_last() =~= tasks@.take(i as int));
            assert((i + 1) * 0xFFFF_FFFF_FFFF_FFFF <= 0x1_0000_0000_0000_0000
                * 0xFFFF_FFFF_FFFF_FFFF) by (nonlinear_arith)
                requires
                    i + 1 <= 0x1_0000_0000_0000_0000,
            ;
        }
        total = total + tasks[i].size_bytes as u128;
        i += 1;
    }
    proof {
        assert(tasks@.take(i as int) =~= tasks@);
    }
    total
}

/// Whether the coldest storage tier can be had where the bucket lies: in
/// four regions, and wherever the backend names no region.
pub open spec fn deep_archive_in(location: Option<Seq<char>>) -> bool {
    match location {
        None => true,
        Some(region) => region == "us-east-1"@ || region == "us-east-2"@ || region == "us-west-2"@
            || region == "eu-west-1"@,
    }
}

/// Decides [`deep_archive_in`].
pub fn deep_archive_available(location: Option<&str>) -> (available: bool)
    ensures
        available == deep_archive_in(
            match location {
                Some(region) => Some(region@),
                None => None,
            },
        ),
{
    match location {
        None => true,
        Some(region) => same_text(region, "us-east-1") || same_text(region, "us-east-2")
            || same_text(region, "us-west-2") || same_text(region, "eu-west-1"),
    }
}

/// The rate, in whole bytes per second, at which `size_bytes` bytes went out
/// in `nanos` nanoseconds. There is none where no time passed or where the
/// rate does not fit in 64 bits.
pub open spec fn bytes_per_second(size_bytes: u64, nanos: u64) -> Option<u64> {
    if nanos == 0 || size_bytes * 1_000_000_000 / (nanos as int) > u64::MAX {
        None
    } else {
        Some((size_bytes * 1_000_000_000 / (nanos as int)) as u64)
    }
}

/// Computes [`bytes_per_second`].
pub fn throughput(size_bytes: u64, nanos: u64) -> (rate: Option<u64>)
    ensures
        rate == bytes_per_second(size_bytes, nanos),
{
    if nanos == 0 {
        return None;
    }
    let scaled: u128 = size_bytes as u128 * 1_000_000_000;
    let rate: u128 = scaled / (nanos as u128);
    if rate > u64::MAX as u128 {
        None
    } else {
        Some(rate as u64)
    }
}

/// Draws a payload of `size_bytes` bytes, each byte on its own.
pub fn random_payload(size_bytes: usize) -> (payload: Vec<u8>)
    ensures
        payload@.len() == size_bytes,
{
    let mut payload: Vec<u8> = Vec::new();
    let mut i: usize = 0;
    while i < size_bytes
        invariant
            i <= size_bytes,
            payload@.len() == i,
        decreases size_bytes - i,
    {
        let byte = random_in_range(0, 255);
        payload.push(byte as u8);
        i += 1;
    }
    payload
}

} // verus!
