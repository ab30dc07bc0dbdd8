//! Reading a compressed archive member by member.

use std::io::Read;

use vstd::prelude::*;

use crate::text::same;

verus! {

/// What a package holds once decompressed, up to its end or the first place at which it
/// cannot be.
pub uninterp spec fn inflated(package: Seq<u8>) -> Seq<u8>;

/// Calls `zstd::stream::read::Decoder` over the package, and reads it byte by byte to its end
/// or first error. The result depends on the package alone. How the format is read is not
/// stated.
#[verifier::external_body]
pub(crate) fn inflate(package: &[u8]) -> (r: Vec<u8>)
    ensures
        r@ == inflated(package@),
{
    match zstd::stream::read::Decoder::new(package) {
        Ok(decoder) => decoder.bytes().map_while(Result::ok).collect(),
        Err(_) => Vec::new(),
    }
}

/// Whether an archive has a block of that number. An archive is made of blocks of 512 bytes.
pub open spec fn has_block(bytes: Seq<u8>, i: int) -> bool {
    0 <= i && 512 * i + 512 <= bytes.len()
}

/// Whether a block has the name of a format behind its fields: `ustar`.
pub open spec fn named(bytes: Seq<u8>, at: int) -> bool {
    &&& bytes[at + 257] == 117
    &&& bytes[at + 258] == 115
    &&& bytes[at + 259] == 116
    &&& bytes[at + 260] == 97
    &&& bytes[at + 261] == 114
}

/// Whether a block could be the header of a sparse file whose map goes on in the blocks
/// behind it.
pub open spec fn long_map(bytes: Seq<u8>, i: int) -> bool {
    &&& has_block(bytes, i)
    &&& bytes[512 * i + 156] == 83
    &&& named(bytes, 512 * i)
    &&& bytes[512 * i + 482] == 1
}

/// The path of a member of an archive, by its place, where there is one.
pub uninterp spec fn plain_path(archive: Seq<u8>, index: nat) -> Result<
    Option<Seq<char>>,
    Seq<char>,
>;

/// The size of a member of an archive, by its place, where there is one.
pub uninterp spec fn plain_size(archive: Seq<u8>, index: nat) -> Result<Option<u64>, Seq<char>>;

/// The first blocks of an archive.
pub open spec fn front(bytes: Seq<u8>, blocks: int) -> Seq<u8> {
    bytes.subrange(0, 512 * blocks)
}

/// Whether the end of an archive was met where the map of a sparse file had to go on.
pub open spec fn lacks_map(found: Result<Option<Seq<char>>, Seq<char>>) -> bool {
    found matches Err(why) && why == "failed to read extension"@
}

/// Whether a member's map is still to go on behind block `j`.
pub open spec fn wants_map(bytes: Seq<u8>, index: nat, j: int) -> bool {
    long_map(bytes, j) && lacks_map(plain_path(front(bytes, j + 1), index))
}

/// Whether block `j` is the header of a member that is a sparse file whose map goes on in
/// the blocks behind it: the first behind which the map is to go on.
pub open spec fn mapped_at(bytes: Seq<u8>, index: nat, j: int) -> bool {
    wants_map(bytes, index, j) && forall|i: int| 0 <= i < j ==> !#[trigger] wants_map(
        bytes,
        index,
        i,
    )
}

/// An archive up to a header of a sparse file, with the header that of an ordinary file of
/// the same size. The sum of its bytes is the same.
pub open spec fn disguised(bytes: Seq<u8>, j: int) -> Seq<u8> {
    front(bytes, j + 1).update(512 * j + 156, 48u8).update(512 * j + 482, 36u8)
}

/// How many blocks can follow a header and its file before a position is 2^64.
pub open spec fn room(j: int, size: u64) -> int {
    0x80_0000_0000_0000 - (j + 1) - (size + 511) / 512
}

/// Whether the position behind a sparse file runs over while its map is read: so many
/// blocks of the map follow its header that the position behind the file would be 2^64.
pub open spec fn over_behind(bytes: Seq<u8>, index: nat, j: int) -> bool {
    &&& mapped_at(bytes, index, j)
    &&& plain_size(disguised(bytes, j), index) matches Ok(Some(size)) && room(j, size) >= 1
        && has_block(bytes, j + room(j, size)) && lacks_map(
        plain_path(front(bytes, j + room(j, size)), index),
    )
}

/// Whether the position in an archive runs over at a member.
pub open spec fn over_at(bytes: Seq<u8>, index: nat) -> bool {
    exists|j: int| #[trigger] over_behind(bytes, index, j)
}

/// Whether the position in an archive runs over at no member up to one.
pub open spec fn calm(bytes: Seq<u8>, index: nat) -> bool {
    forall|m: nat| m <= index ==> !#[trigger] over_at(bytes, m)
}

/// What a member of an archive is.
pub open spec fn path_of(r: Result<Option<String>, String>) -> Result<
    Option<Seq<char>>,
    Seq<char>,
> {
    match r {
        Ok(Some(p)) => Ok(Some(p@)),
        Ok(None) => Ok(None),
        Err(why) => Err(why@),
    }
}

/// The size of a member of an archive.
pub open spec fn size_of(r: Result<Option<u64>, String>) -> Result<Option<u64>, Seq<char>> {
    match r {
        Ok(size) => Ok(size),
        Err(why) => Err(why@),
    }
}

/// Calls `tar::Archive::entries` on the bytes, and `tar::Entry::path` on the entry at `index`,
/// with what is no UTF-8 in the path replaced. The result depends on the arguments alone. How
/// the format is read is not stated. An archive on which the position of `tar` runs over is
/// left out.
#[verifier::external_body]
pub(crate) fn tar_path(archive: &[u8], index: usize) -> (r: Result<Option<String>, String>)
    requires
        calm(archive@, index as nat),
    ensures
        path_of(r) == plain_path(archive@, index as nat),
{
    let mut archive = tar::Archive::new(archive);
    let mut entries = archive.entries().map_err(|e| e.to_string())?;
    match entries.nth(index) {
        None => Ok(None),
        Some(entry) => {
            let entry = entry.map_err(|e| e.to_string())?;
            let path = entry.path().map_err(|e| e.to_string())?;
            Ok(Some(path.to_string_lossy().into_owned()))
        },
    }
}

/// Calls `tar::Archive::entries` on the bytes, and `tar::Entry::size` on the entry at `index`.
/// The result depends on the arguments alone. How the format is read is not stated. An archive
/// on which the position of `tar` runs over is left out.
#[verifier::external_body]
pub(crate) fn tar_size(archive: &[u8], index: usize) -> (r: Result<Option<u64>, String>)
    requires
        calm(archive@, index as nat),
    ensures
        size_of(r) == plain_size(archive@, index as nat),
{
    let mut archive = tar::Archive::new(archive);
    let mut entries = archive.entries().map_err(|e| e.to_string())?;
    match entries.nth(index) {
        None => Ok(None),
        Some(entry) => Ok(Some(entry.map_err(|e| e.to_string())?.size())),
    }
}

fn is_named(bytes: &[u8], at: usize) -> (r: bool)
    requires
        at + 512 <= bytes@.len() <= usize::MAX,
    ensures
        r == named(bytes@, at as int),
{
    bytes[at + 257] == 117 && bytes[at + 258] == 115 && bytes[at + 259] == 116 && bytes[at + 260]
        == 97 && bytes[at + 261] == 114
}

/// The blocks of an archive that could be headers of sparse files whose map goes on behind
/// them, in order.
pub(crate) fn long_maps(bytes: &[u8]) -> (r: Vec<usize>)
    ensures
        forall|k: int| 0 <= k < r@.len() ==> #[trigger] long_map(bytes@, r@[k] as int),
        forall|a: int, b: int| 0 <= a < b < r@.len() ==> r@[a] < r@[b],
        forall|j: int| #[trigger]
            long_map(bytes@, j) ==> exists|k: int| 0 <= k < r@.len() && r@[k] == j,
{
    let mut found: Vec<usize> = Vec::new();
    let mut at: usize = 0;
    let mut n: usize = 0;
    while bytes.len() - at >= 512
        invariant
            at == 512 * n,
            at <= bytes@.len(),
            forall|k: int| 0 <= k < found@.len() ==> #[trigger] long_map(bytes@, found@[k] as int),
            forall|k: int| 0 <= k < found@.len() ==> #[trigger] found@[k] < n,
            forall|a: int, b: int| 0 <= a < b < found@.len() ==> found@[a] < found@[b],
            forall|j: int|
                0 <= j < n && #[trigger] long_map(bytes@, j) ==> exists|k: int|
                    0 <= k < found@.len() && found@[k] == j,
        decreases bytes@.len() - at,
    {
        assert(has_block(bytes@, n as int));
        let ghost before = found@;
        if bytes[at + 156] == 83 && is_named(bytes, at) && bytes[at + 482] == 1 {
            assert(long_map(bytes@, n as int));
            found.push(n);
            assert(found@[before.len() as int] == n);
        }
        assert forall|j: int| 0 <= j < n + 1 && #[trigger] long_map(bytes@, j) implies exists|
            k: int,
        | 0 <= k < found@.len() && found@[k] == j by {
            if j < n {
                let k = choose|k: int| 0 <= k < before.len() && before[k] == j;
                assert(found@[k] == j);
            }
        }
        at = at + 512;
        n = n + 1;
    }
    assert forall|j: int| has_block(bytes@, j) implies j < n by {}
    found
}

/// Archives that begin alike run over alike.
proof fn over_in_front(bytes: Seq<u8>, other: Seq<u8>, blocks: int, index: nat, j: int)
    requires
        0 <= blocks,
        512 * blocks <= other.len(),
        has_block(bytes, blocks - 1) || blocks == 0,
        front(other, blocks) == front(bytes, blocks),
        over_behind(other, index, j),
        j < blocks,
        j + room(j, plain_size(disguised(other, j), index)->Ok_0->Some_0) <= blocks,
        has_block(bytes, j + room(j, plain_size(disguised(other, j), index)->Ok_0->Some_0)),
    ensures
        over_behind(bytes, index, j),
        plain_size(disguised(bytes, j), index) == plain_size(disguised(other, j), index),
{
    let size = plain_size(disguised(other, j), index)->Ok_0->Some_0;
    assert forall|k: int| 0 <= k <= blocks implies #[trigger] front(bytes, k) == front(
        other,
        k,
    ) by {
        assert(front(bytes, k) =~= front(bytes, blocks).subrange(0, 512 * k));
        assert(front(other, k) =~= front(other, blocks).subrange(0, 512 * k));
    }
    assert forall|i: int| 0 <= i < blocks implies #[trigger] wants_map(bytes, index, i)
        == wants_map(other, index, i) by {
        assert(front(bytes, i + 1) == front(other, i + 1));
        assert forall|x: int| 0 <= x < 512 * blocks implies bytes[x] == other[x] by {
            assert(front(bytes, blocks)[x] == bytes[x]);
            assert(front(other, blocks)[x] == other[x]);
        }
    }
    assert(front(bytes, j + 1) == front(other, j + 1));
    assert(front(bytes, j + room(j, size)) == front(other, j + room(j, size)));
    assert(wants_map(bytes, index, j));
    assert forall|i: int| 0 <= i < j implies !#[trigger] wants_map(bytes, index, i) by {
        assert(!wants_map(other, index, i));
    }
}

/// The front of an archive runs over only where the archive does, and before its end.
proof fn over_in_a_front(bytes: Seq<u8>, blocks: int, index: nat, j: int)
    requires
        1 <= blocks,
        has_block(bytes, blocks - 1),
        over_behind(front(bytes, blocks), index, j),
    ensures
        over_behind(bytes, index, j),
        j + room(j, plain_size(disguised(bytes, j), index)->Ok_0->Some_0) < blocks,
{
    let other = front(bytes, blocks);
    let size = plain_size(disguised(other, j), index)->Ok_0->Some_0;
    assert(has_block(other, j + room(j, size)));
    assert(front(other, blocks) =~= front(bytes, blocks));
    over_in_front(bytes, other, blocks, index, j);
}

proof fn one_header(bytes: Seq<u8>, index: nat, a: int, b: int)
    requires
        mapped_at(bytes, index, a),
        mapped_at(bytes, index, b),
    ensures
        a == b,
{
    if a < b {
        assert(!wants_map(bytes, index, a));
    } else if b < a {
        assert(!wants_map(bytes, index, b));
    }
}

/// Up to the first header that could have a map behind it, an archive is calm.
proof fn calm_up_to(bytes: Seq<u8>, index: nat, j: int)
    requires
        has_block(bytes, j),
        forall|m: nat| m < index ==> !#[trigger] over_at(bytes, m),
        forall|i: int| 0 <= i < j ==> !#[trigger] wants_map(bytes, index, i),
    ensures
        calm(front(bytes, j + 1), index),
{
    let other = front(bytes, j + 1);
    assert forall|m: nat| m <= index implies !#[trigger] over_at(other, m) by {
        if over_at(other, m) {
            let i = choose|i: int| #[trigger] over_behind(other, m, i);
            over_in_a_front(bytes, j + 1, m, i);
            assert(over_at(bytes, m));
            assert(wants_map(bytes, m, i));
        }
    }
}

proof fn calm_in_disguise(bytes: Seq<u8>, index: nat, j: int)
    requires
        has_block(bytes, j),
        forall|m: nat| m < index ==> !#[trigger] over_at(bytes, m),
        forall|i: int| 0 <= i < j ==> !#[trigger] wants_map(bytes, index, i),
    ensures
        calm(disguised(bytes, j), index),
{
    let other = disguised(bytes, j);
    assert forall|m: nat| m <= index implies !#[trigger] over_at(other, m) by {
        if over_at(other, m) {
            let i = choose|i: int| #[trigger] over_behind(other, m, i);
            let size = plain_size(disguised(other, i), m)->Ok_0->Some_0;
            assert(has_block(other, i + room(i, size)));
            assert(other[512 * j + 156] == 48);
            assert(long_map(other, i));
            assert(i != j);
            assert(front(other, j) =~= front(bytes, j));
            over_in_front(bytes, other, j, m, i);
            assert(over_at(bytes, m));
            assert(wants_map(bytes, m, i));
        }
    }
}

proof fn calm_before_the_end(bytes: Seq<u8>, index: nat, j: int, blocks: int)
    requires
        1 <= blocks,
        has_block(bytes, blocks - 1),
        forall|m: nat| m < index ==> !#[trigger] over_at(bytes, m),
        mapped_at(bytes, index, j),
        plain_size(disguised(bytes, j), index) matches Ok(Some(size)) && blocks == j + room(
            j,
            size,
        ),
    ensures
        calm(front(bytes, blocks), index),
{
    let other = front(bytes, blocks);
    assert forall|m: nat| m <= index implies !#[trigger] over_at(other, m) by {
        if over_at(other, m) {
            let i = choose|i: int| #[trigger] over_behind(other, m, i);
            over_in_a_front(bytes, blocks, m, i);
            assert(over_at(bytes, m));
            one_header(bytes, index, i, j);
        }
    }
}

fn is_lacking_map(found: &Result<Option<String>, String>) -> (r: bool)
    ensures
        r == lacks_map(path_of(*found)),
{
    match found {
        Ok(_) => false,
        Err(why) => same(why, "failed to read extension"),
    }
}

/// Whether the position in an archive runs over at a member, where it does at none before.
/// The blocks that could be headers of sparse files with a long map are given.
pub(crate) fn runs_over(bytes: &[u8], maps: &[usize], index: usize) -> (r: bool)
    requires
        forall|m: nat| m < index ==> !#[trigger] over_at(bytes@, m),
        forall|k: int| 0 <= k < maps@.len() ==> #[trigger] long_map(bytes@, maps@[k] as int),
        forall|a: int, b: int| 0 <= a < b < maps@.len() ==> maps@[a] < maps@[b],
        forall|j: int| #[trigger]
            long_map(bytes@, j) ==> exists|k: int| 0 <= k < maps@.len() && maps@[k] == j,
    ensures
        r == over_at(bytes@, index as nat),
{
    let ghost at = index as nat;
    let mut k: usize = 0;
    while k < maps.len()
        invariant
            k <= maps@.len(),
            at == index as nat,
            forall|m: nat| m < index ==> !#[trigger] over_at(bytes@, m),
            forall|k: int| 0 <= k < maps@.len() ==> #[trigger] long_map(bytes@, maps@[k] as int),
            forall|a: int, b: int| 0 <= a < b < maps@.len() ==> maps@[a] < maps@[b],
            forall|j: int| #[trigger]
                long_map(bytes@, j) ==> exists|k: int| 0 <= k < maps@.len() && maps@[k] == j,
            forall|i: int| 0 <= i < k ==> !wants_map(bytes@, at, #[trigger] maps@[i] as int),
        decreases maps@.len() - k,
    {
        let j = maps[k];
        assert(long_map(bytes@, maps@[k as int] as int));
        assert forall|i: int| 0 <= i < j implies !#[trigger] wants_map(bytes@, at, i) by {
            if wants_map(bytes@, at, i) {
                let other = choose|o: int| 0 <= o < maps@.len() && maps@[o] == i;
                if other >= k {
                    assert(other == k || maps@[k as int] < maps@[other]);
                }
                assert(!wants_map(bytes@, at, maps@[other] as int));
            }
        }
        let length: usize = bytes.len();
        assert(512 * j + 512 <= length);
        let end: usize = 512 * j + 512;
        proof {
            calm_up_to(bytes@, at, j as int);
        }
        let head = vstd::slice::slice_subrange(bytes, 0, end);
        assert(head@ == front(bytes@, j + 1));
        if is_lacking_map(&tar_path(head, index)) {
            assert(mapped_at(bytes@, at, j as int));
            return runs_over_behind(bytes, j, index);
        }
        k += 1;
    }
    assert forall|j: int| !#[trigger] over_behind(bytes@, at, j) by {
        if over_behind(bytes@, at, j) {
            assert(long_map(bytes@, j));
            let other = choose|o: int| 0 <= o < maps@.len() && maps@[o] == j;
            assert(!wants_map(bytes@, at, maps@[other] as int));
        }
    }
    false
}

fn runs_over_behind(bytes: &[u8], j: usize, index: usize) -> (r: bool)
    requires
        mapped_at(bytes@, index as nat, j as int),
        forall|m: nat| m < index ==> !#[trigger] over_at(bytes@, m),
    ensures
        r == over_at(bytes@, index as nat),
{
    let ghost at = index as nat;
    assert forall|i: int| over_behind(bytes@, at, i) implies i == j by {
        one_header(bytes@, at, i, j as int);
    }
    assert(over_at(bytes@, at) == over_behind(bytes@, at, j as int));
    let length: usize = bytes.len();
    assert(512 * j + 512 <= length);
    let end: usize = 512 * j + 512;
    let mut plain = vstd::slice::slice_to_vec(vstd::slice::slice_subrange(bytes, 0, end));
    plain.set(512 * j + 156, 48);
    plain.set(512 * j + 482, 36);
    assert(plain@ =~= disguised(bytes@, j as int));
    proof {
        calm_in_disguise(bytes@, at, j as int);
    }
    let size = match tar_size(&plain, index) {
        Ok(Some(size)) => size,
        _ => return false,
    };
    let taken: u128 = j as u128 + 1 + (size as u128 + 511) / 512;
    if taken >= 0x80_0000_0000_0000 {
        return false;
    }
    let blocks: u128 = j as u128 + (0x80_0000_0000_0000 - taken);
    assert(blocks == j + room(j as int, size));
    if blocks >= (length / 512) as u128 {
        return false;
    }
    let stop: usize = 512 * blocks as usize;
    proof {
        calm_before_the_end(bytes@, at, j as int, blocks as int);
    }
    let head = vstd::slice::slice_subrange(bytes, 0, stop);
    is_lacking_map(&tar_path(head, index))
}

/// The path of a member of a compressed archive, by its place, where there is one. An
/// error says whether the decompressor itself could not be set up.
pub uninterp spec fn archived_path(package: Seq<u8>, index: nat) -> Result<
    Option<Seq<char>>,
    (bool, Seq<char>),
>;

/// The first bytes of a member of a compressed archive, by its place, up to a limit.
pub uninterp spec fn archived_bytes(package: Seq<u8>, index: nat, limit: u64) -> Result<
    Seq<u8>,
    Seq<char>,
>;

/// What a listed member is.
pub open spec fn listing(r: Result<Option<String>, (bool, String)>) -> Result<
    Option<Seq<char>>,
    (bool, Seq<char>),
> {
    match r {
        Ok(Some(p)) => Ok(Some(p@)),
        Ok(None) => Ok(None),
        Err((setup, why)) => Err((setup, why@)),
    }
}

/// Some bytes, or why they could not be had.
pub open spec fn bytes_of(r: Result<Vec<u8>, String>) -> Result<Seq<u8>, Seq<char>> {
    match r {
        Ok(bytes) => Ok(bytes@),
        Err(why) => Err(why@),
    }
}

/// Calls `tar::Archive::entries` on a `zstd::stream::read::Decoder` over the package, and
/// `tar::Entry::path` on the entry at `index`, with what is no UTF-8 in the path replaced.
/// The result depends on the package and the index alone. How both formats are read is not
/// stated. The position of `tar` may run over while it reads the map of a sparse file of
/// nearly 2^64 bytes; a package in which it does up to that member is left out.
#[verifier::external_body]
pub(crate) fn member_path(package: &[u8], index: usize) -> (r: Result<
    Option<String>,
    (bool, String),
>)
    requires
        calm(inflated(package@), index as nat),
    ensures
        listing(r) == archived_path(package@, index as nat),
{
    let decoder = zstd::stream::read::Decoder::new(package).map_err(|e| (true, e.to_string()))?;
    let mut archive = tar::Archive::new(decoder);
    let mut entries = archive.entries().map_err(|e| (false, e.to_string()))?;
    match entries.nth(index) {
        None => Ok(None),
        Some(entry) => {
            let entry = entry.map_err(|e| (false, e.to_string()))?;
            let path = entry.path().map_err(|e| (false, e.to_string()))?;
            Ok(Some(path.to_string_lossy().into_owned()))
        },
    }
}

/// Calls `tar::Archive::entries` on a `zstd::stream::read::Decoder` over the package, and
/// reads the `tar::Entry` at `index` to its end, but no more than `limit` bytes of it. The
/// result depends on the arguments alone. How both formats are read is not stated. A package
/// in which the position of `tar` runs over up to that member is left out.
#[verifier::external_body]
pub(crate) fn member_bytes(package: &[u8], index: usize, limit: u64) -> (r: Result<
    Vec<u8>,
    String,
>)
    requires
        calm(inflated(package@), index as nat),
    ensures
        bytes_of(r) == archived_bytes(package@, index as nat, limit),
        r is Ok ==> r->Ok_0@.len() <= limit,
{
    let decoder = zstd::stream::read::Decoder::new(package).map_err(|e| e.to_string())?;
    let mut archive = tar::Archive::new(decoder);
    let mut entries = archive.entries().map_err(|e| e.to_string())?;
    let mut bytes = Vec::new();
    if let Some(entry) = entries.nth(index) {
        let entry = entry.map_err(|e| e.to_string())?;
        entry.take(limit).read_to_end(&mut bytes).map_err(|e| e.to_string())?;
    }
    Ok(bytes)
}

} // verus!
