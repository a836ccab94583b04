//! The snapshot file: metadata and application state in one run of bytes
//!
//! Eight big-endian bytes give the length of the metadata; the metadata follows, then the state.
//! A length says where the metadata ends whatever it contains, which a separator cannot: both
//! halves are bytes that this file does not get to constrain.

use vstd::prelude::*;

use crate::text::decimal;
use crate::text::decimal_text;
use crate::text::law_decimal_ends_in_the_last_digit;

verus! {

/// How many bytes the metadata length takes
pub const LEN_BYTES: usize = 8;

/// The number that `bytes` write down in base 256, most significant first
pub open spec fn be_value(bytes: Seq<u8>) -> nat
    decreases bytes.len(),
{
    if bytes.len() == 0 {
        0
    } else {
        be_value(bytes.drop_last()) * 256 + bytes.last() as nat
    }
}

/// The lowest `width` digits of `n` in base 256, most significant first
pub open spec fn be_bytes(n: nat, width: nat) -> Seq<u8>
    decreases width,
{
    if width == 0 {
        Seq::empty()
    } else {
        be_bytes(n / 256, (width - 1) as nat).push((n % 256) as u8)
    }
}

/// A snapshot file: the length of the metadata, the metadata, the state
pub open spec fn snapshot_file(meta: Seq<u8>, data: Seq<u8>) -> Seq<u8> {
    be_bytes(meta.len(), 8) + meta + data
}

/// Why some bytes are not a snapshot file
#[derive(Debug, Clone, Copy, PartialEq, Eq)]
pub enum SnapshotFileError {
    /// The file ends before the metadata length does
    NoLength { file_len: usize },

    /// The metadata length is more than this machine can address
    AbsurdLength { claimed: u64 },

    /// The file ends before the metadata does
    NoMetadata { meta_len: usize, rest_len: usize },
}

impl SnapshotFileError {
    /// What is wrong with the file, for whoever reads the error
    pub open spec fn text(self) -> Seq<char> {
        match self {
            SnapshotFileError::NoLength { file_len } => "snapshot file is "@ + decimal(
                file_len as nat,
            ) + " bytes, too short for a "@ + decimal(LEN_BYTES as nat)
                + "-byte metadata length"@,
            SnapshotFileError::AbsurdLength { claimed } => "snapshot metadata length "@ + decimal(
                claimed as nat,
            ) + " is absurd"@,
            SnapshotFileError::NoMetadata { meta_len, rest_len } => "snapshot file claims "@
                + decimal(meta_len as nat) + " bytes of metadata, "@ + decimal(rest_len as nat)
                + " bytes follow the length"@,
        }
    }

    /// What is wrong with the file, for whoever reads the error
    pub fn message(&self) -> (text: String)
        ensures
            text@ == self.text(),
    {
        match self {
            SnapshotFileError::NoLength { file_len } => {
                let mut text = String::from_str("snapshot file is ");
                text.append(decimal_text(*file_len as u64).as_str());
                text.append(" bytes, too short for a ");
                text.append(decimal_text(LEN_BYTES as u64).as_str());
                text.append("-byte metadata length");
                text
            },
            SnapshotFileError::AbsurdLength { claimed } => {
                let mut text = String::from_str("snapshot metadata length ");
                text.append(decimal_text(*claimed).as_str());
                text.append(" is absurd");
                text
            },
            SnapshotFileError::NoMetadata { meta_len, rest_len } => {
                let mut text = String::from_str("snapshot file claims ");
                text.append(decimal_text(*meta_len as u64).as_str());
                text.append(" bytes of metadata, ");
                text.append(decimal_text(*rest_len as u64).as_str());
                text.append(" bytes follow the length");
                text
            },
        }
    }
}

/// What the file `file` opens with: the metadata length, and the bytes after it
pub open spec fn meta_len_of(file: Seq<u8>) -> Result<(nat, Seq<u8>), SnapshotFileError> {
    let meta_len = be_value(file.take(LEN_BYTES as int));
    if file.len() < LEN_BYTES {
        Err(SnapshotFileError::NoLength { file_len: file.len() as usize })
    } else if meta_len > usize::MAX {
        Err(SnapshotFileError::AbsurdLength { claimed: meta_len as u64 })
    } else {
        Ok((meta_len, file.skip(LEN_BYTES as int)))
    }
}

/// What the file `file` holds: the metadata, and the state
pub open spec fn snapshot_parts(file: Seq<u8>) -> Result<(Seq<u8>, Seq<u8>), SnapshotFileError> {
    match meta_len_of(file) {
        Ok((meta_len, rest)) => if rest.len() < meta_len {
            Err(
                SnapshotFileError::NoMetadata {
                    meta_len: meta_len as usize,
                    rest_len: rest.len() as usize,
                },
            )
        } else {
            Ok((rest.take(meta_len as int), rest.skip(meta_len as int)))
        },
        Err(e) => Err(e),
    }
}

/// How many values `width` digits of base 256 have
spec fn range_of(width: nat) -> nat
    decreases width,
{
    if width == 0 {
        1
    } else {
        256 * range_of((width - 1) as nat)
    }
}

proof fn lemma_be_bytes_read_back(n: nat, width: nat)
    requires
        n < range_of(width),
    ensures
        be_bytes(n, width).len() == width,
        be_value(be_bytes(n, width)) == n,
    decreases width,
{
    if width > 0 {
        lemma_be_bytes_read_back(n / 256, (width - 1) as nat);
        assert(be_bytes(n, width).drop_last() =~= be_bytes(n / 256, (width - 1) as nat));
    }
}

proof fn lemma_range_of_eight()
    ensures
        range_of(8) == 0x1_0000_0000_0000_0000,
{
    reveal_with_fuel(range_of, 9);
}

proof fn lemma_be_value_bound(bytes: Seq<u8>)
    ensures
        be_value(bytes) < range_of(bytes.len()),
    decreases bytes.len(),
{
    if bytes.len() > 0 {
        lemma_be_value_bound(bytes.drop_last());
    }
}

/// A file that was written from a snapshot reads back as that snapshot, byte for byte, whatever
/// its two halves hold.
pub proof fn law_snapshot_file_reads_back(meta: Seq<u8>, data: Seq<u8>)
    requires
        meta.len() <= usize::MAX,
    ensures
        snapshot_parts(snapshot_file(meta, data)) == Ok::<_, SnapshotFileError>((meta, data)),
{
    lemma_range_of_eight();
    lemma_be_bytes_read_back(meta.len(), 8);
    let file = snapshot_file(meta, data);
    assert(file.take(8) =~= be_bytes(meta.len(), 8));
    assert(file.skip(8) =~= meta + data);
    assert((meta + data).take(meta.len() as int) =~= meta);
    assert((meta + data).skip(meta.len() as int) =~= data);
}

/// A snapshot file cut short anywhere before its state begins is refused.
pub proof fn law_cut_snapshot_file_is_refused(meta: Seq<u8>, data: Seq<u8>, cut: int)
    requires
        meta.len() <= usize::MAX,
        0 <= cut < LEN_BYTES + meta.len(),
    ensures
        snapshot_parts(snapshot_file(meta, data).take(cut)) is Err,
{
    lemma_range_of_eight();
    lemma_be_bytes_read_back(meta.len(), 8);
    let file = snapshot_file(meta, data).take(cut);
    if cut >= LEN_BYTES {
        assert(file.take(8) =~= be_bytes(meta.len(), 8));
    }
}

/// The two halves of a snapshot file are all of it: no byte of a file that is read is passed over.
pub proof fn law_snapshot_parts_cover_the_file(file: Seq<u8>)
    requires
        snapshot_parts(file) is Ok,
    ensures
        ({
            let (meta, data) = snapshot_parts(file)->Ok_0;
            file == file.take(LEN_BYTES as int) + meta + data
        }),
{
    let (meta, data) = snapshot_parts(file)->Ok_0;
    assert(file =~= file.take(LEN_BYTES as int) + meta + data);
}

/// Lay a snapshot out as a file
pub fn frame_snapshot(meta: &Vec<u8>, data: &Vec<u8>) -> (file: Vec<u8>)
    ensures
        file@ == snapshot_file(meta@, data@),
{
    let mut file: Vec<u8> = be_bytes_of(meta.len() as u64);
    push_all(&mut file, meta);
    push_all(&mut file, data);
    file
}

/// Add the bytes of `more` at the end of `bytes`
fn push_all(bytes: &mut Vec<u8>, more: &Vec<u8>)
    ensures
        final(bytes)@ == old(bytes)@ + more@,
{
    let mut i: usize = 0;
    while i < more.len()
        invariant
            0 <= i <= more@.len(),
            bytes@ == old(bytes)@ + more@.take(i as int),
        decreases more@.len() - i,
    {
        bytes.push(more[i]);
        i = i + 1;
        assert(more@.take(i as int) =~= more@.take(i - 1).push(more@[i - 1]));
    }
    assert(more@.take(i as int) =~= more@);
}

/// The eight big-endian bytes of `n`
fn be_bytes_of(n: u64) -> (bytes: Vec<u8>)
    ensures
        bytes@ == be_bytes(n as nat, 8),
{
    be_bytes_to(n, 8)
}

/// The lowest `width` big-endian bytes of `n`
fn be_bytes_to(n: u64, width: usize) -> (bytes: Vec<u8>)
    ensures
        bytes@ == be_bytes(n as nat, width as nat),
    decreases width,
{
    if width == 0 {
        Vec::new()
    } else {
        let mut bytes = be_bytes_to(n / 256, width - 1);
        bytes.push((n % 256) as u8);
        bytes
    }
}

/// The part of `bytes` from `from` up to and without `to`
fn part_of(bytes: &Vec<u8>, from: usize, to: usize) -> (part: Vec<u8>)
    requires
        from <= to <= bytes@.len(),
    ensures
        part@ == bytes@.subrange(from as int, to as int),
{
    let mut part: Vec<u8> = Vec::new();
    let mut i: usize = from;
    while i < to
        invariant
            from <= i <= to <= bytes@.len(),
            part@ == bytes@.subrange(from as int, i as int),
        decreases to - i,
    {
        part.push(bytes[i]);
        i = i + 1;
        assert(part@ =~= bytes@.subrange(from as int, i as int));
    }
    part
}

/// Read the snapshot file's leading metadata length, and return it with the bytes after it
pub fn split_meta_len(file: &Vec<u8>) -> (split: Result<(usize, Vec<u8>), SnapshotFileError>)
    ensures
        match split {
            Ok((meta_len, rest)) => meta_len_of(file@) == Ok::<_, SnapshotFileError>(
                (meta_len as nat, rest@),
            ),
            Err(e) => meta_len_of(file@) == Err::<(nat, Seq<u8>), _>(e),
        },
{
    if file.len() < LEN_BYTES {
        return Err(SnapshotFileError::NoLength { file_len: file.len() });
    }
    let mut meta_len: u64 = 0;
    let mut i: usize = 0;
    proof {
        lemma_range_of_eight();
    }
    while i < LEN_BYTES
        invariant
            0 <= i <= LEN_BYTES,
            LEN_BYTES <= file@.len(),
            meta_len == be_value(file@.take(i as int)),
            range_of(8) == 0x1_0000_0000_0000_0000,
        decreases LEN_BYTES - i,
    {
        assert(file@.take(i + 1).drop_last() =~= file@.take(i as int));
        proof {
            lemma_be_value_bound(file@.take(i as int));
            lemma_range_grows(i as nat, 7);
            reveal_with_fuel(range_of, 2);
        }
        meta_len = meta_len * 256 + file[i] as u64;
        i = i + 1;
    }
    // A length wider than a `usize` cannot address anything this process can hold, and a file that
    // claims one is not a snapshot this build wrote.
    if meta_len > usize::MAX as u64 {
        return Err(SnapshotFileError::AbsurdLength { claimed: meta_len });
    }
    let rest = part_of(file, LEN_BYTES, file.len());
    Ok((meta_len as usize, rest))
}

proof fn lemma_range_grows(a: nat, b: nat)
    requires
        a <= b,
    ensures
        range_of(a) <= range_of(b),
    decreases b,
{
    if a < b {
        lemma_range_grows(a, (b - 1) as nat);
    }
}

/// Read a snapshot file apart into the metadata and the state
pub fn parse_snapshot(file: &Vec<u8>) -> (parts: Result<(Vec<u8>, Vec<u8>), SnapshotFileError>)
    ensures
        match parts {
            Ok((meta, data)) => snapshot_parts(file@) == Ok::<_, SnapshotFileError>(
                (meta@, data@),
            ),
            Err(e) => snapshot_parts(file@) == Err::<(Seq<u8>, Seq<u8>), _>(e),
        },
{
    let (meta_len, rest) = match split_meta_len(file) {
        Ok(split) => split,
        Err(e) => {
            return Err(e);
        },
    };
    if rest.len() < meta_len {
        return Err(SnapshotFileError::NoMetadata { meta_len, rest_len: rest.len() });
    }
    let meta = part_of(&rest, 0, meta_len);
    let data = part_of(&rest, meta_len, rest.len());
    assert(meta@ =~= rest@.take(meta_len as int));
    assert(data@ =~= rest@.skip(meta_len as int));
    Ok((meta, data))
}

/// Bytes are read as a number from the most significant on: one more byte at the end makes 256
/// times the number and the byte more.
pub proof fn law_bytes_are_read_most_significant_first(bytes: Seq<u8>, last: u8)
    ensures
        be_value(Seq::empty()) == 0,
        be_value(bytes.push(last)) == be_value(bytes) * 256 + last,
{
    assert(bytes.push(last).drop_last() =~= bytes);
}

/// A snapshot file opens with eight bytes that say how long the metadata is; the metadata follows,
/// byte for byte, then the state, and nothing else.
pub proof fn law_snapshot_file_is_length_metadata_state(meta: Seq<u8>, data: Seq<u8>)
    requires
        meta.len() <= usize::MAX,
    ensures
        ({
            let file = snapshot_file(meta, data);
            &&& file.len() == 8 + meta.len() + data.len()
            &&& be_value(file.take(8)) == meta.len()
            &&& file.subrange(8, 8 + meta.len() as int) == meta
            &&& file.skip(8 + meta.len() as int) == data
        }),
{
    lemma_range_of_eight();
    lemma_be_bytes_read_back(meta.len(), 8);
    let file = snapshot_file(meta, data);
    assert(file.take(8) =~= be_bytes(meta.len(), 8));
    assert(file.subrange(8, 8 + meta.len() as int) =~= meta);
    assert(file.skip(8 + meta.len() as int) =~= data);
}

/// A file is read apart by the length that it opens with. It is refused if and only if it is too
/// short to say one, says one that this machine cannot address, or ends before the metadata does;
/// what is wrong with it is then said in its own numbers.
pub proof fn law_file_is_read_apart_by_its_length(file: Seq<u8>)
    requires
        file.len() <= usize::MAX,
    ensures
        file.len() < 8 ==> snapshot_parts(file) == Err::<(Seq<u8>, Seq<u8>), _>(
            SnapshotFileError::NoLength { file_len: file.len() as usize },
        ),
        file.len() >= 8 ==> {
            let n = be_value(file.take(8));
            &&& n > usize::MAX ==> snapshot_parts(file) == Err::<(Seq<u8>, Seq<u8>), _>(
                SnapshotFileError::AbsurdLength { claimed: n as u64 },
            )
            &&& n <= usize::MAX && file.len() < 8 + n ==> snapshot_parts(file) == Err::<
                (Seq<u8>, Seq<u8>),
                _,
            >(
                SnapshotFileError::NoMetadata {
                    meta_len: n as usize,
                    rest_len: (file.len() - 8) as usize,
                },
            )
            &&& n <= usize::MAX && 8 + n <= file.len() ==> snapshot_parts(file) == Ok::<
                _,
                SnapshotFileError,
            >((file.subrange(8, 8 + n as int), file.skip(8 + n as int)))
        },
{
    if file.len() >= 8 {
        let n = be_value(file.take(8));
        let rest = file.skip(8);
        if n <= usize::MAX && 8 + n <= file.len() {
            assert(rest.take(n as int) =~= file.subrange(8, 8 + n as int));
            assert(rest.skip(n as int) =~= file.skip(8 + n as int));
        }
    }
}

/// The length that a file opens with is the number in its first eight bytes, and what follows it is
/// the rest of the file.
pub proof fn law_file_opens_with_its_length(file: Seq<u8>)
    ensures
        file.len() < 8 ==> meta_len_of(file) == Err::<(nat, Seq<u8>), _>(
            SnapshotFileError::NoLength { file_len: file.len() as usize },
        ),
        file.len() >= 8 ==> {
            let n = be_value(file.take(8));
            &&& n > usize::MAX ==> meta_len_of(file) == Err::<(nat, Seq<u8>), _>(
                SnapshotFileError::AbsurdLength { claimed: n as u64 },
            )
            &&& n <= usize::MAX ==> meta_len_of(file) == Ok::<_, SnapshotFileError>(
                (n, file.skip(8)),
            )
        },
{
}

/// What is wrong with a file is said in words, with its own numbers in decimal.
pub proof fn law_wrong_file_is_described(
    file_len: usize,
    claimed: u64,
    meta_len: usize,
    rest_len: usize,
)
    ensures
        (SnapshotFileError::NoLength { file_len }).text() == "snapshot file is "@ + (decimal(
            file_len as nat,
        ) + " bytes, too short for a 8-byte metadata length"@),
        (SnapshotFileError::AbsurdLength { claimed }).text() == "snapshot metadata length "@ + (
        decimal(claimed as nat) + " is absurd"@),
        (SnapshotFileError::NoMetadata { meta_len, rest_len }).text() == "snapshot file claims "@ + (
        decimal(meta_len as nat) + (" bytes of metadata, "@ + (decimal(rest_len as nat)
            + " bytes follow the length"@))),
{
    reveal_strlit(" bytes, too short for a 8-byte metadata length");
    reveal_strlit(" bytes, too short for a ");
    reveal_strlit("-byte metadata length");
    law_decimal_ends_in_the_last_digit(0, 8);
    assert(decimal(8) =~= seq!['8']);
    assert(" bytes, too short for a 8-byte metadata length"@ =~= " bytes, too short for a "@
        + decimal(8) + "-byte metadata length"@);
    assert((SnapshotFileError::NoLength { file_len }).text() =~= "snapshot file is "@ + (decimal(
        file_len as nat,
    ) + " bytes, too short for a 8-byte metadata length"@));
    assert((SnapshotFileError::AbsurdLength { claimed }).text() =~= "snapshot metadata length "@ + (
    decimal(claimed as nat) + " is absurd"@));
    assert((SnapshotFileError::NoMetadata { meta_len, rest_len }).text() =~= "snapshot file claims "@
        + (decimal(meta_len as nat) + (" bytes of metadata, "@ + (decimal(rest_len as nat)
        + " bytes follow the length"@))));
}

/// A snapshot that was laid out as a file is read apart into just what it was laid out from.
pub proof fn law_framed_snapshot_is_parsed_back(
    meta: Vec<u8>,
    data: Vec<u8>,
    file: Vec<u8>,
    parts: Result<(Vec<u8>, Vec<u8>), SnapshotFileError>,
)
    requires
        call_ensures(frame_snapshot, (&meta, &data), file),
        call_ensures(parse_snapshot, (&file,), parts),
        meta@.len() <= usize::MAX,
    ensures
        parts matches Ok((m, d)) && m@ == meta@ && d@ == data@,
{
    law_snapshot_file_reads_back(meta@, data@);
}

} // verus!
