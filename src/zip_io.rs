//! The ZIP container codec, used through the `zip` crate.
use vstd::prelude::*;

verus! {

#[verifier::external_type_specification]
#[verifier::external_body]
#[verifier::reject_recursive_types(T)]
pub struct ExCursor<T>(std::io::Cursor<T>);

#[verifier::external_type_specification]
#[verifier::external_body]
#[verifier::reject_recursive_types(R)]
pub struct ExZipArchive<R>(zip::ZipArchive<R>);


#[verifier::external_type_specification]
#[verifier::external_body]
pub struct ExZipError(zip::result::ZipError);

/// A ZIP container read from memory.
pub type ZipReader = zip::ZipArchive<std::io::Cursor<Vec<u8>>>;

/// A ZIP container being written to memory. The writer's type is bounded by
/// `std::io::Write + Seek`, which cannot be declared here, so it is held opaquely.
#[verifier::external_body]
pub struct ZipBuilder {
    inner: zip::ZipWriter<std::io::Cursor<Vec<u8>>>,
}

/// How reading one entry of a container by its index ends.
pub enum EntryRead {
    /// The entry decompresses, CRC-checked, to these bytes.
    Read(Seq<u8>),
    /// The entry is flagged as encrypted (and its data can be located); it
    /// cannot be read without a password.
    Encrypted,
    /// Reading fails for another reason: an unsupported method, corrupt data.
    Unreadable,
}

/// The entries of an open container, one per index: the name, and how reading
/// it ends.
pub uninterp spec fn zip_entries(a: zip::ZipArchive<std::io::Cursor<Vec<u8>>>) -> Seq<(Seq<char>, EntryRead)>;

/// What the bytes `b` hold when they open as a container: its entries, one per
/// index; none when they do not open.
pub uninterp spec fn zip_opened(b: Seq<u8>) -> Option<Seq<(Seq<char>, EntryRead)>>;

/// The entries of an open container when every one of them can be read.
pub open spec fn readable_entries(es: Seq<(Seq<char>, EntryRead)>) -> Option<Seq<(Seq<char>, Seq<u8>)>> {
    if forall|i: int| 0 <= i < es.len() ==> (#[trigger] es[i]).1 is Read {
        Some(Seq::new(es.len(), |i: int| (es[i].0, es[i].1->Read_0)))
    } else {
        None
    }
}

/// What the bytes `b` decode to: every entry's name and content, in order;
/// none when they do not open or an entry cannot be read.
pub open spec fn zip_decoded(b: Seq<u8>) -> Option<Seq<(Seq<char>, Seq<u8>)>> {
    match zip_opened(b) {
        Some(es) => readable_entries(es),
        None => None,
    }
}

/// Whether every entry stored in the container bytes `b` uses the deflate method.
pub uninterp spec fn zip_deflated(b: Seq<u8>) -> bool;

/// The largest entry content, in bytes, that the writer is relied on to store
/// without the large-file option; it leaves room below 4 GiB for deflate's overhead.
pub const ZIP_ENTRY_LIMIT: u64 = 0xF000_0000;

/// Whether every entry's content stays within `ZIP_ENTRY_LIMIT`.
pub open spec fn entries_small(es: Seq<(Seq<char>, Seq<u8>)>) -> bool {
    forall|k: int| 0 <= k < es.len() ==> (#[trigger] es[k]).1.len() <= ZIP_ENTRY_LIMIT
}

/// Whether no entry of `es` is named `name`.
pub open spec fn name_fresh(es: Seq<(Seq<char>, Seq<u8>)>, name: Seq<char>) -> bool {
    forall|k: int| 0 <= k < es.len() ==> (#[trigger] es[k]).0 != name
}

/// The entries written so far into a container under construction: name and content.
pub uninterp spec fn zip_written(w: ZipBuilder) -> Seq<(Seq<char>, Seq<u8>)>;

/// Whether writes currently go to an open entry of the container under construction.
pub uninterp spec fn zip_entry_open(w: ZipBuilder) -> bool;

/// Whether every entry started in the container under construction uses deflate.
pub uninterp spec fn zip_all_deflate(w: ZipBuilder) -> bool;

/// The kind of a codec failure, with its description.
#[derive(Debug, Clone)]
pub enum ZipFault {
    Io(String),
    InvalidArchive(String),
    UnsupportedArchive(String),
    FileNotFound,
    InvalidPassword,
}

/// Relies on `zip::ZipArchive::new`: reads the central directory of `bytes`,
/// which is in memory, so the outcome depends on the bytes alone.
#[verifier::external_body]
pub(crate) fn open_zip(bytes: Vec<u8>) -> (r: Result<ZipReader, zip::result::ZipError>)
    ensures
        r is Err ==> zip_opened(bytes@) is None,
        r matches Ok(a) ==> zip_opened(bytes@) == Some(zip_entries(a)),
{
    zip::ZipArchive::new(std::io::Cursor::new(bytes))
}

/// Relies on `zip::ZipArchive::len`: the number of entries.
#[verifier::external_body]
pub(crate) fn zip_len(a: &ZipReader) -> (r: usize)
    ensures
        r == zip_entries(*a).len(),
{
    a.len()
}

/// Relies on `zip::ZipArchive::by_index` and reading the entry it returns to its
/// end: the name and decompressed content of entry `i`. Without a password an
/// encrypted entry is refused before anything is read. Reading moves the
/// underlying cursor only; the entries stay as they were.
#[verifier::external_body]
pub(crate) fn zip_entry(a: &mut ZipReader, i: usize) -> (r: Result<(String, Vec<u8>), zip::result::ZipError>)
    requires
        i < zip_entries(*old(a)).len(),
    ensures
        zip_entries(*final(a)) == zip_entries(*old(a)),
        r is Ok <==> zip_entries(*old(a))[i as int].1 is Read,
        r matches Ok(e) ==> e.0@ == zip_entries(*old(a))[i as int].0
            && zip_entries(*old(a))[i as int].1 == EntryRead::Read(e.1@),
{
    let mut f = a.by_index(i)?;
    let name = f.name().to_string();
    let mut data: Vec<u8> = Vec::new();
    std::io::Read::read_to_end(&mut f, &mut data)?;
    Ok((name, data))
}

/// Relies on `zip::ZipArchive::by_index_raw` and `ZipFile::encrypted`: whether
/// entry `i` is flagged as encrypted, when its data can be located.
#[verifier::external_body]
pub(crate) fn zip_entry_encrypted(a: &mut ZipReader, i: usize) -> (r: Result<bool, zip::result::ZipError>)
    requires
        i < zip_entries(*old(a)).len(),
    ensures
        zip_entries(*final(a)) == zip_entries(*old(a)),
        zip_entries(*old(a))[i as int].1 is Encrypted ==> r is Ok,
        r matches Ok(b) ==> (b <==> zip_entries(*old(a))[i as int].1 is Encrypted),
{
    Ok(a.by_index_raw(i)?.encrypted())
}

/// Tells the variants of `zip::result::ZipError` apart, keeping each description.
#[verifier::external_body]
pub(crate) fn zip_fault(e: &zip::result::ZipError) -> (r: ZipFault) {
    match e {
        zip::result::ZipError::Io(x) => ZipFault::Io(x.to_string()),
        zip::result::ZipError::InvalidArchive(x) => ZipFault::InvalidArchive(x.to_string()),
        zip::result::ZipError::UnsupportedArchive(x) => ZipFault::UnsupportedArchive(x.to_string()),
        zip::result::ZipError::FileNotFound => ZipFault::FileNotFound,
        zip::result::ZipError::InvalidPassword => ZipFault::InvalidPassword,
        _ => ZipFault::InvalidArchive(e.to_string()),
    }
}

/// Relies on `zip::ZipWriter::new`: a container with no entries yet.
#[verifier::external_body]
pub(crate) fn new_zip_builder() -> (w: ZipBuilder)
    ensures
        zip_written(w) == Seq::<(Seq<char>, Seq<u8>)>::empty(),
        !zip_entry_open(w),
        zip_all_deflate(w),
{
    ZipBuilder { inner: zip::ZipWriter::new(std::io::Cursor::new(Vec::new())) }
}

/// Relies on `zip::ZipWriter::start_file` with the deflate method: finishes the
/// open entry, if any, and opens a new, empty entry named `name` that later writes
/// go to. It refuses a name already used; writing to memory cannot fail
/// otherwise while the entries stay small. A name over 65535 bytes panics.
#[verifier::external_body]
pub(crate) fn zip_start_entry(w: &mut ZipBuilder, name: &str) -> (r: Result<(), zip::result::ZipError>)
    requires
        vstd::utf8::encode_utf8(name@).len() <= 65535,
    ensures
        r is Ok ==> zip_written(*final(w)) == zip_written(*old(w)).push((name@, Seq::<u8>::empty())),
        r is Ok ==> zip_entry_open(*final(w)),
        zip_all_deflate(*old(w)) ==> zip_all_deflate(*final(w)),
        name_fresh(zip_written(*old(w)), name@) && entries_small(zip_written(*old(w))) ==> r is Ok,
{
    let options = zip::write::SimpleFileOptions::default()
        .compression_method(zip::CompressionMethod::Deflated);
    w.inner.start_file(name, options)
}

/// Relies on `std::io::Write::write_all` on a `zip::ZipWriter`: appends `data`
/// to the content of the open entry, the one opened last. Without the
/// large-file option it fails only once an entry passes 4 GiB.
#[verifier::external_body]
pub(crate) fn zip_write(w: &mut ZipBuilder, data: &[u8]) -> (r: Result<(), zip::result::ZipError>)
    requires
        zip_written(*old(w)).len() > 0,
        zip_entry_open(*old(w)),
    ensures
        r is Ok ==> zip_entry_open(*final(w)),
        zip_all_deflate(*old(w)) ==> zip_all_deflate(*final(w)),
        r is Ok ==> zip_written(*final(w)) == zip_written(*old(w)).update(
            zip_written(*old(w)).len() - 1,
            (zip_written(*old(w)).last().0, zip_written(*old(w)).last().1 + data@),
        ),
        zip_written(*old(w)).last().1.len() + data@.len() <= ZIP_ENTRY_LIMIT ==> r is Ok,
{
    std::io::Write::write_all(&mut w.inner, data)?;
    Ok(())
}

/// Relies on `zip::ZipWriter::finish`: writes the central directory and hands
/// back the container's bytes, which read back as exactly the entries written.
/// In memory it fails only on an entry too large for the format.
#[verifier::external_body]
pub(crate) fn zip_finish(w: ZipBuilder) -> (r: Result<Vec<u8>, zip::result::ZipError>)
    ensures
        entries_small(zip_written(w)) ==> r is Ok,
        r matches Ok(b) ==> zip_decoded(b@) == Some(zip_written(w)),
        r matches Ok(b) ==> (zip_all_deflate(w) ==> zip_deflated(b@)),
{
    let c = w.inner.finish()?;
    Ok(c.into_inner())
}

} // verus!
