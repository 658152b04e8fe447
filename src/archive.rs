use vstd::prelude::*;

verus! {

/// The decompressed stream over a caller's buffer, as ruzstd reads it.
type Decoder<'a> = ruzstd::decoding::StreamingDecoder<&'a [u8], ruzstd::decoding::FrameDecoder>;

#[verifier::external_type_specification]
#[verifier::external_body]
pub struct ExIoError(std::io::Error);

#[verifier::external_type_specification]
#[verifier::external_body]
pub struct ExFrameDecoderError(ruzstd::decoding::errors::FrameDecoderError);

/// The decompressed stream over a caller's buffer. Verus cannot declare
/// ruzstd's decoder type (its parameters are bound by std's `Read`), so it is
/// held here out of Verus's sight.
#[verifier::external_body]
pub struct Decompressed<'a> {
    decoder: Decoder<'a>,
}

/// A tar reader over a decompressed stream (opaque for the same reason).
#[verifier::external_body]
pub struct TarReader<'a> {
    archive: tar::Archive<Decoder<'a>>,
}

/// The forward-only walk over the entries of a `TarReader`.
#[verifier::external_body]
pub struct EntryWalk<'b, 'a> {
    entries: tar::Entries<'b, Decoder<'a>>,
}

/// One entry handed out by an `EntryWalk`, its payload not yet read.
#[verifier::external_body]
pub struct RawEntry<'b, 'a> {
    entry: tar::Entry<'b, Decoder<'a>>,
}

/// Why a read of an archive failed.
#[derive(Debug, Clone, Copy, PartialEq, Eq, Structural)]
pub enum ArchiveError {
    Decode,
    Frame,
    NotFound,
    Parse,
}

/// What the tar reader makes of one entry: its path, its declared size, and
/// the bytes its payload region reads to (none where that read fails).
pub type EntryModel = (Seq<char>, u64, Option<Seq<u8>>);

/// Whether ruzstd's decoder can open the frame that starts `data`.
pub uninterp spec fn zstd_opens(data: Seq<u8>) -> bool;

/// The compressed bytes that a decompressed stream reads from.
pub uninterp spec fn decoded_from(d: Decompressed) -> Seq<u8>;

/// The compressed bytes under a tar reader.
pub uninterp spec fn read_from(a: TarReader) -> Seq<u8>;

/// Whether a tar reader has not been read from yet.
pub uninterp spec fn at_start(a: TarReader) -> bool;

/// The entries that tar's walk yields, in archive order, over ruzstd's
/// decoding of `data`, up to its end or to the first entry that fails.
pub uninterp spec fn tar_entries(data: Seq<u8>) -> Seq<EntryModel>;

/// Whether tar's walk over the decoding of `data` ends cleanly after
/// `tar_entries(data)`, rather than with an error.
pub uninterp spec fn tar_ends_cleanly(data: Seq<u8>) -> bool;

/// The entries that a walk has still to yield.
pub uninterp spec fn walk_rest(w: EntryWalk) -> Seq<EntryModel>;

/// Whether a walk ends cleanly once `walk_rest(w)` is yielded.
pub uninterp spec fn walk_clean(w: EntryWalk) -> bool;

/// The entry that a handed-out entry stands for.
pub uninterp spec fn entry_model(e: RawEntry) -> EntryModel;

/// Relies on ruzstd's `StreamingDecoder::new`: reads the frame header of `data`.
#[verifier::external_body]
fn open_decoder<'a>(data: &'a [u8]) -> (r: Result<Decompressed<'a>, ruzstd::decoding::errors::FrameDecoderError>)
    ensures
        r is Ok <==> zstd_opens(data@),
        r matches Ok(d) ==> decoded_from(d) == data@,
{
    ruzstd::decoding::StreamingDecoder::new(data).map(|decoder| Decompressed { decoder })
}

/// Relies on tar's `Archive::new`: wraps a reader without reading from it.
#[verifier::external_body]
fn archive_over<'a>(d: Decompressed<'a>) -> (r: TarReader<'a>)
    ensures
        read_from(r) == decoded_from(d),
        at_start(r),
{
    TarReader { archive: tar::Archive::new(d.decoder) }
}

/// Relies on tar's `Archive::entries`: starts the walk over the entries,
/// which fails only where the reader has been read from.
#[verifier::external_body]
fn entries_of<'b, 'a>(a: &'b mut TarReader<'a>) -> (r: Result<EntryWalk<'b, 'a>, std::io::Error>)
    requires
        at_start(*old(a)),
    ensures
        r is Ok,
        r matches Ok(w) ==> walk_rest(w) == tar_entries(read_from(*old(a))),
        r matches Ok(w) ==> walk_clean(w) == tar_ends_cleanly(read_from(*old(a))),
{
    a.archive.entries().map(|entries| EntryWalk { entries })
}

/// Relies on `Iterator::next` of tar's `Entries`: skips what is left of the
/// previous payload and parses the next header.
#[verifier::external_body]
fn next_entry<'b, 'a>(w: &mut EntryWalk<'b, 'a>) -> (r: Option<Result<RawEntry<'b, 'a>, std::io::Error>>)
    ensures
        walk_rest(*old(w)).len() > 0 ==> (r matches Some(Ok(e)) && entry_model(e) == walk_rest(
            *old(w),
        )[0]),
        walk_rest(*old(w)).len() > 0 ==> walk_rest(*final(w)) == walk_rest(*old(w)).drop_first()
            && walk_clean(*final(w)) == walk_clean(*old(w)),
        walk_rest(*old(w)).len() == 0 && walk_clean(*old(w)) ==> r is None,
        walk_rest(*old(w)).len() == 0 && !walk_clean(*old(w)) ==> r matches Some(Err(_)),
{
    w.entries.next().map(|e| e.map(|entry| RawEntry { entry }))
}

/// Relies on tar's `Entry::path_bytes`: the entry's path, rendered lossily as text.
#[verifier::external_body]
fn entry_path(e: &RawEntry) -> (r: String)
    ensures
        r@ == entry_model(*e).0,
{
    String::from_utf8_lossy(&e.entry.path_bytes()).into_owned()
}

/// Relies on tar's `Entry::size`: the payload length that the header declares.
#[verifier::external_body]
fn entry_size(e: &RawEntry) -> (r: u64)
    ensures
        r == entry_model(*e).1,
{
    e.entry.size()
}

/// Relies on `Read::read_to_end` of tar's `Entry`: the bytes of the entry's
/// payload region, read to its end.
#[verifier::external_body]
fn read_payload(e: &mut RawEntry) -> (r: Result<Vec<u8>, std::io::Error>)
    ensures
        r is Ok <==> entry_model(*old(e)).2 is Some,
        r matches Ok(b) ==> b@ == entry_model(*old(e)).2->Some_0,
{
    let mut buffer = Vec::new();
    std::io::Read::read_to_end(&mut e.entry, &mut buffer).map(|_| buffer)
}

/// The path of the entry that holds the snapshot's metadata record.
pub open spec fn metadata_path() -> Seq<char> {
    seq!['.', 'v', 'e', 'g', 'h', '.', 'j', 's', 'o', 'n']
}

/// Whether `path` is the reserved metadata path.
pub fn is_metadata_path(path: &str) -> (r: bool)
    ensures
        r == (path@ == metadata_path()),
{
    let reserved = ".vegh.json".to_owned();
    proof {
        reveal_strlit(".vegh.json");
        assert(reserved@ =~= metadata_path());
    }
    path.to_owned() == reserved
}

/// The header of one entry: its path and its declared payload size.
#[derive(Debug)]
pub struct EntryHeader {
    pub path: String,
    pub size: u64,
}

/// One line of a listing.
#[derive(Debug)]
pub struct SnapEntry {
    pub path: String,
    pub size: u64,
    pub is_file: bool,
}

/// What a listing holds, as (path, size) pairs, for a sequence of headers.
pub open spec fn listing(hs: Seq<(Seq<char>, u64)>) -> Seq<(Seq<char>, u64)>
    decreases hs.len(),
{
    if hs.len() == 0 {
        seq![]
    } else {
        let rest = listing(hs.drop_last());
        if hs.last().0 == metadata_path() {
            rest
        } else {
            rest.push(hs.last())
        }
    }
}

/// Headers as (path, size) pairs.
pub open spec fn header_views(hs: Seq<EntryHeader>) -> Seq<(Seq<char>, u64)> {
    hs.map_values(|h: EntryHeader| (h.path@, h.size))
}

/// Listing lines as (path, size) pairs.
pub open spec fn snap_views(es: Seq<SnapEntry>) -> Seq<(Seq<char>, u64)> {
    es.map_values(|e: SnapEntry| (e.path@, e.size))
}

/// No line of a listing has the metadata path.
pub proof fn lemma_listing_skips_metadata(hs: Seq<(Seq<char>, u64)>)
    ensures
        forall|i: int| 0 <= i < listing(hs).len() ==> listing(hs)[i].0 != metadata_path(),
    decreases hs.len(),
{
    if hs.len() > 0 {
        let rest = listing(hs.drop_last());
        lemma_listing_skips_metadata(hs.drop_last());
        if hs.last().0 != metadata_path() {
            assert forall|i: int| 0 <= i < listing(hs).len() implies listing(hs)[i].0
                != metadata_path() by {
                if i < rest.len() {
                    assert(listing(hs)[i] == rest[i]);
                }
            }
        }
    }
}

/// The listing of a sequence of headers: every entry but the metadata one,
/// in order, each marked as a file.
pub fn listing_from_headers(headers: &Vec<EntryHeader>) -> (r: Vec<SnapEntry>)
    ensures
        snap_views(r@) == listing(header_views(headers@)),
        forall|i: int| 0 <= i < r@.len() ==> #[trigger] r@[i].is_file,
{
    let mut out: Vec<SnapEntry> = Vec::new();
    let mut i: usize = 0;
    while i < headers.len()
        invariant
            i <= headers@.len(),
            snap_views(out@) == listing(header_views(headers@).take(i as int)),
            forall|j: int| 0 <= j < out@.len() ==> #[trigger] out@[j].is_file,
        decreases headers@.len() - i,
    {
        let h = &headers[i];
        let ghost hv = header_views(headers@);
        proof {
            assert(hv.take(i as int + 1).drop_last() =~= hv.take(i as int));
            assert(hv.take(i as int + 1).last() == (h.path@, h.size));
        }
        if !is_metadata_path(h.path.as_str()) {
            let ghost before = out@;
            let e = SnapEntry { path: h.path.clone(), size: h.size, is_file: true };
            out.push(e);
            proof {
                assert(snap_views(out@) =~= snap_views(before).push((h.path@, h.size)));
            }
        }
        i = i + 1;
    }
    proof {
        assert(header_views(headers@).take(headers@.len() as int) =~= header_views(headers@));
    }
    out
}

/// A payload as read, checked against the size that its header declares:
/// a payload that came out short or long is a framing error.
pub fn checked_payload(bytes: Vec<u8>, declared: u64) -> (r: Result<Vec<u8>, ArchiveError>)
    ensures
        bytes@.len() == declared ==> r == Ok::<Vec<u8>, ArchiveError>(bytes),
        bytes@.len() != declared ==> r == Err::<Vec<u8>, ArchiveError>(ArchiveError::Frame),
{
    if bytes.len() as u64 == declared {
        Ok(bytes)
    } else {
        Err(ArchiveError::Frame)
    }
}

/// The (path, size) headers of a sequence of entries.
pub open spec fn headers_of(es: Seq<EntryModel>) -> Seq<(Seq<char>, u64)> {
    es.map_values(|e: EntryModel| (e.0, e.1))
}

/// What listing the archive `data` gives.
pub open spec fn listing_result(data: Seq<u8>) -> Result<Seq<(Seq<char>, u64)>, ArchiveError> {
    if !zstd_opens(data) {
        Err(ArchiveError::Decode)
    } else if !tar_ends_cleanly(data) {
        Err(ArchiveError::Frame)
    } else {
        Ok(listing(headers_of(tar_entries(data))))
    }
}

/// The position of the first entry whose path is `target`.
pub open spec fn first_with_path(es: Seq<EntryModel>, target: Seq<char>) -> Option<int>
    decreases es.len(),
{
    if es.len() == 0 {
        None
    } else if es[0].0 == target {
        Some(0)
    } else {
        match first_with_path(es.drop_first(), target) {
            Some(i) => Some(i + 1),
            None => None,
        }
    }
}

/// What extracting `target` from the archive `data` gives: the payload of
/// the first entry with that path, which must read to its declared size.
pub open spec fn extraction(data: Seq<u8>, target: Seq<char>) -> Result<Seq<u8>, ArchiveError> {
    let es = tar_entries(data);
    if !zstd_opens(data) {
        Err(ArchiveError::Decode)
    } else {
        match first_with_path(es, target) {
            Some(i) => match es[i].2 {
                Some(b) => if b.len() == es[i].1 {
                    Ok(b)
                } else {
                    Err(ArchiveError::Frame)
                },
                None => Err(ArchiveError::Frame),
            },
            None => if tar_ends_cleanly(data) {
                Err(ArchiveError::NotFound)
            } else {
                Err(ArchiveError::Frame)
            },
        }
    }
}

/// A result with its bytes seen as a sequence.
pub open spec fn bytes_result(r: Result<Vec<u8>, ArchiveError>) -> Result<Seq<u8>, ArchiveError> {
    match r {
        Ok(b) => Ok(b@),
        Err(e) => Err(e),
    }
}

proof fn lemma_first_with_path_skip(es: Seq<EntryModel>, k: int, target: Seq<char>)
    requires
        0 <= k < es.len(),
        forall|j: int| 0 <= j < k ==> es[j].0 != target,
    ensures
        es[k].0 == target ==> first_with_path(es, target) == Some(k),
        es[k].0 != target ==> first_with_path(es, target) == (match first_with_path(
            es.skip(k + 1),
            target,
        ) {
            Some(i) => Some(i + k + 1),
            None => None::<int>,
        }),
    decreases k,
{
    if k > 0 {
        lemma_first_with_path_skip(es.drop_first(), k - 1, target);
        assert(es.drop_first().skip(k) =~= es.skip(k + 1));
    } else {
        assert(es.drop_first() =~= es.skip(1));
    }
}

/// Lists every entry of the archive `data` but the metadata one, in archive
/// order, reading headers only. A walk that fails anywhere gives no listing.
pub fn list_files(data: &[u8]) -> (r: Result<Vec<SnapEntry>, ArchiveError>)
    ensures
        r is Ok <==> listing_result(data@) is Ok,
        r matches Ok(v) ==> snap_views(v@) == listing_result(data@)->Ok_0,
        r matches Err(e) ==> listing_result(data@) == Err::<Seq<(Seq<char>, u64)>, ArchiveError>(e),
        r matches Ok(v) ==> forall|i: int|
            0 <= i < v@.len() ==> (#[trigger] v@[i]).path@ != metadata_path() && v@[i].is_file,
{
    let decompressed = match open_decoder(data) {
        Ok(d) => d,
        Err(_) => {
            return Err(ArchiveError::Decode);
        },
    };
    let mut reader = archive_over(decompressed);
    let mut walk = match entries_of(&mut reader) {
        Ok(w) => w,
        Err(_) => {
            return Err(ArchiveError::Frame);
        },
    };
    let ghost all = tar_entries(data@);
    let mut headers: Vec<EntryHeader> = Vec::new();
    loop
        invariant_except_break
            walk_rest(walk) == all.skip(headers@.len() as int),
            walk_clean(walk) == tar_ends_cleanly(data@),
        invariant
            headers@.len() <= all.len(),
            header_views(headers@) == headers_of(all.take(headers@.len() as int)),
            zstd_opens(data@),
            all == tar_entries(data@),
        ensures
            headers@.len() == all.len(),
            tar_ends_cleanly(data@),
        decreases walk_rest(walk).len(),
    {
        let ghost k = headers@.len() as int;
        let ghost before = headers@;
        match next_entry(&mut walk) {
            None => {
                break ;
            },
            Some(Err(_)) => {
                return Err(ArchiveError::Frame);
            },
            Some(Ok(entry)) => {
                let path = entry_path(&entry);
                let size = entry_size(&entry);
                headers.push(EntryHeader { path, size });
                proof {
                    assert(all.skip(k)[0] == all[k]);
                    assert(all.skip(k).drop_first() =~= all.skip(k + 1));
                    assert(all.take(k + 1) =~= all.take(k).push(all[k]));
                    assert(headers_of(all.take(k + 1)) =~= headers_of(all.take(k)).push(
                        (all[k].0, all[k].1),
                    ));
                    assert(header_views(headers@) =~= header_views(before).push(
                        (all[k].0, all[k].1),
                    ));
                }
            },
        }
    }
    proof {
        assert(all.take(headers@.len() as int) =~= all);
    }
    let out = listing_from_headers(&headers);
    proof {
        lemma_listing_skips_metadata(header_views(headers@));
        assert forall|i: int| 0 <= i < out@.len() implies (#[trigger] out@[i]).path@
            != metadata_path() by {
            assert(snap_views(out@)[i] == (out@[i].path@, out@[i].size));
        }
    }
    Ok(out)
}

/// The payload of the first entry of `data` whose path is `target_path`.
/// Entries before it are skipped, their payloads never copied; nothing after
/// it is read.
pub fn get_file_content(data: &[u8], target_path: &str) -> (r: Result<Vec<u8>, ArchiveError>)
    ensures
        bytes_result(r) == extraction(data@, target_path@),
{
    let decompressed = match open_decoder(data) {
        Ok(d) => d,
        Err(_) => {
            return Err(ArchiveError::Decode);
        },
    };
    let mut reader = archive_over(decompressed);
    let mut walk = match entries_of(&mut reader) {
        Ok(w) => w,
        Err(_) => {
            return Err(ArchiveError::Frame);
        },
    };
    let ghost all = tar_entries(data@);
    let target = target_path.to_owned();
    let ghost mut k: int = 0;
    loop
        invariant
            0 <= k <= all.len(),
            forall|j: int| 0 <= j < k ==> all[j].0 != target@,
            walk_rest(walk) == all.skip(k),
            walk_clean(walk) == tar_ends_cleanly(data@),
            zstd_opens(data@),
            all == tar_entries(data@),
            target@ == target_path@,
        decreases walk_rest(walk).len(),
    {
        match next_entry(&mut walk) {
            None => {
                proof {
                    assert(all.skip(k).len() == all.len() - k);
                    assert(k == all.len());
                    lemma_first_with_path_none(all, target@);
                    assert(first_with_path(all, target_path@) is None);
                    assert(tar_ends_cleanly(data@));
                }
                return Err(ArchiveError::NotFound);
            },
            Some(Err(_)) => {
                proof {
                    assert(all.skip(k).len() == all.len() - k);
                    assert(k == all.len());
                    lemma_first_with_path_none(all, target@);
                    assert(first_with_path(all, target_path@) is None);
                    assert(!tar_ends_cleanly(data@));
                }
                return Err(ArchiveError::Frame);
            },
            Some(Ok(entry)) => {
                proof {
                    assert(all.skip(k)[0] == all[k]);
                    assert(all.skip(k).drop_first() =~= all.skip(k + 1));
                    lemma_first_with_path_skip(all, k, target@);
                }
                let mut entry = entry;
                let path = entry_path(&entry);
                if path == target {
                    assert(first_with_path(all, target_path@) == Some(k));
                    let declared = entry_size(&entry);
                    let bytes = match read_payload(&mut entry) {
                        Ok(b) => b,
                        Err(_) => {
                            return Err(ArchiveError::Frame);
                        },
                    };
                    return checked_payload(bytes, declared);
                }
                proof {
                    k = k + 1;
                }
            },
        }
    }
}

proof fn lemma_first_with_path_none(es: Seq<EntryModel>, target: Seq<char>)
    requires
        forall|j: int| 0 <= j < es.len() ==> es[j].0 != target,
    ensures
        first_with_path(es, target) is None,
    decreases es.len(),
{
    if es.len() > 0 {
        lemma_first_with_path_none(es.drop_first(), target);
    }
}

/// Round trip: an entry whose path no earlier entry has, and whose payload
/// reads to its declared size, is extracted by its path with exactly that
/// payload, of that size.
pub proof fn lemma_listed_entry_extracts(data: Seq<u8>, j: int)
    requires
        zstd_opens(data),
        0 <= j < tar_entries(data).len(),
        forall|i: int| 0 <= i < j ==> tar_entries(data)[i].0 != tar_entries(data)[j].0,
        tar_entries(data)[j].2 matches Some(b) && b.len() == tar_entries(data)[j].1,
    ensures
        extraction(data, tar_entries(data)[j].0) == Ok::<Seq<u8>, ArchiveError>(
            tar_entries(data)[j].2->Some_0,
        ),
        tar_entries(data)[j].2->Some_0.len() == tar_entries(data)[j].1,
{
    lemma_first_with_path_skip(tar_entries(data), j, tar_entries(data)[j].0);
}

/// An archive that reads cleanly and has no entry at a path gives NotFound
/// for it; for the metadata path this is what `get_metadata` returns.
pub proof fn lemma_absent_path_not_found(data: Seq<u8>, target: Seq<char>)
    requires
        zstd_opens(data),
        tar_ends_cleanly(data),
        forall|i: int| 0 <= i < tar_entries(data).len() ==> tar_entries(data)[i].0 != target,
    ensures
        extraction(data, target) == Err::<Seq<u8>, ArchiveError>(ArchiveError::NotFound),
{
    lemma_first_with_path_none(tar_entries(data), target);
}

} // verus!
